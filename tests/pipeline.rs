use disk_usage::cli::{sort_by_name, Cli};
use disk_usage::disk::{filter_disks, DiskCollector, VolumeReading};
use disk_usage::display::{
    create_progress_bar, display_disks, format_bytes, get_usage_color, truncate_string, Band,
    LineStyle,
};
use disk_usage::filter::sort_disks;
use disk_usage::pipeline::{build_report, Outcome};
use disk_usage::types::{DiskInfo, SortBy, UsageThresholds};

const GB: u64 = 1024 * 1024 * 1024;

fn disk(name: &str, mount: &str, total: u64, available: u64) -> DiskInfo {
    DiskInfo::new(
        name.to_string(),
        mount.to_string(),
        total,
        available,
        "ext4".to_string(),
    )
}

fn reading(name: &str, mount: &str, total: u64, available: u64) -> VolumeReading {
    VolumeReading {
        name: name.to_string(),
        mount_point: mount.to_string(),
        total_space: total,
        available_space: available,
        file_system: "ext4".to_string(),
    }
}

fn cli(sort: &str) -> Cli {
    Cli {
        sort: sort.to_string(),
        min_size: 1,
        all: false,
        no_color: false,
        no_bars: false,
        yellow_threshold: 7000,
        red_threshold: 9000,
    }
}

#[test]
fn derived_fields_saturate_when_available_exceeds_total() {
    let d = disk("x", "/x", 10, 25);
    assert_eq!(d.used_space, 0);
    assert_eq!(d.usage_tenths, 0);
    let full = disk("y", "/y", 10, 0);
    assert_eq!(full.used_space, 10);
    assert_eq!(full.usage_tenths, 1000);
    let third = disk("z", "/z", 3, 2);
    assert_eq!(third.usage_tenths, 333);
}

#[test]
fn empty_volume_has_zero_usage() {
    let d = disk("empty", "/e", 0, 0);
    assert_eq!(d.used_space, 0);
    assert_eq!(d.usage_tenths, 0);
    assert_eq!(create_progress_bar(&d, false), "0.0%");
    let lines = display_disks(&vec![d], &UsageThresholds::default(), false, false);
    assert!(lines[2].text.ends_with("0.0%"));
    assert_eq!(lines[4].text, "Total: 0.00 KB size, 0.00 KB used, 0.00 KB available");
}

#[test]
fn byte_labels_pick_units() {
    assert_eq!(format_bytes(1 << 30), "1.00 GB");
    assert_eq!(format_bytes(1 << 40), "1.00 TB");
    assert_eq!(format_bytes(1 << 20), "1.00 MB");
    assert_eq!(format_bytes(0), "0.00 KB");
    assert_eq!(format_bytes(512), "0.50 KB");
    assert_eq!(format_bytes(1536), "1.50 KB");
    assert_eq!(format_bytes(1023 * 1024), "1023.00 KB");
    assert_eq!(format_bytes(5 * GB + GB / 4), "5.25 GB");
    assert_eq!(format_bytes(u64::MAX), "16777216.00 TB");
}

#[test]
fn exact_halves_round_to_even() {
    assert_eq!(format_bytes(128), "0.12 KB");
    assert_eq!(format_bytes(384), "0.38 KB");
    assert_eq!(format_bytes(GB + GB / 8), "1.12 GB");
    assert_eq!(format_bytes(GB + 3 * GB / 8), "1.38 GB");
    let tie = disk("t", "/t", 16, 15);
    assert_eq!(tie.usage_tenths, 62);
    assert_eq!(create_progress_bar(&tie, false), "6.2%");
    assert_eq!(
        create_progress_bar(&tie, true),
        format!("{}{} 6.2%", "█".repeat(1), "░".repeat(19))
    );
    let up = disk("u", "/u", 16, 13);
    assert_eq!(create_progress_bar(&up, false), "18.8%");
}

#[test]
fn usage_sort_handles_ties_and_singletons() {
    let mut one = vec![disk("a", "/a", 100, 40)];
    sort_disks(&mut one, SortBy::Usage);
    assert_eq!(one.len(), 1);
    assert_eq!(one[0].name, "a");

    let mut same = vec![disk("a", "/a", 100, 50), disk("b", "/b", 200, 100), disk("c", "/c", 0, 0)];
    sort_disks(&mut same, SortBy::Usage);
    assert_eq!(same.len(), 3);
    assert!(same[0].usage_tenths >= same[1].usage_tenths);
    assert!(same[1].usage_tenths >= same[2].usage_tenths);
    assert_eq!(same[2].name, "c");

    let mut mixed = vec![
        disk("a", "/a", 1000, 900),
        disk("b", "/b", 3, 0),
        disk("c", "/c", 1000, 333),
        disk("d", "/d", 0, 0),
    ];
    sort_disks(&mut mixed, SortBy::Usage);
    let names: Vec<&str> = mixed.iter().map(|d| d.name.as_str()).collect();
    assert_eq!(names, vec!["b", "c", "a", "d"]);
}

#[test]
fn size_sort_is_non_increasing() {
    let mut disks = vec![disk("a", "/a", 5, 0), disk("b", "/b", 50, 0), disk("c", "/c", 20, 0)];
    sort_disks(&mut disks, SortBy::Size);
    let sizes: Vec<u64> = disks.iter().map(|d| d.total_space).collect();
    assert_eq!(sizes, vec![50, 20, 5]);
}

#[test]
fn mount_sort_is_bytewise() {
    let mut disks = vec![
        disk("a", "/home", 1, 0),
        disk("b", "/a/b", 1, 0),
        disk("c", "/", 1, 0),
        disk("d", "/a-b", 1, 0),
    ];
    sort_disks(&mut disks, SortBy::MountPoint);
    let mounts: Vec<&str> = disks.iter().map(|d| d.mount_point.as_str()).collect();
    assert_eq!(mounts, vec!["/", "/a-b", "/a/b", "/home"]);
}

#[test]
fn filter_keeps_large_volumes_in_order() {
    let disks = vec![
        disk("a", "/a", 2 * GB, 0),
        disk("b", "/b", GB - 1, 0),
        disk("c", "/c", GB, 0),
    ];
    let kept = filter_disks(disks, 1, false);
    let names: Vec<&str> = kept.iter().map(|d| d.name.as_str()).collect();
    assert_eq!(names, vec!["a", "c"]);

    let disks = vec![disk("a", "/a", 1, 0), disk("b", "/b", 2, 0)];
    let all = filter_disks(disks, 100, true);
    let names: Vec<&str> = all.iter().map(|d| d.name.as_str()).collect();
    assert_eq!(names, vec!["a", "b"]);

    assert!(filter_disks(Vec::new(), 1, false).is_empty());
}

#[test]
fn truncation_keeps_prefix_and_length() {
    assert_eq!(truncate_string("abcdefghij", 10), "abcdefghij");
    assert_eq!(truncate_string("abcdefghijk", 10), "abcdefg...");
    assert_eq!(truncate_string("ééééé", 4), "é...");
    assert_eq!(truncate_string("abcd", 2), "...");
    assert_eq!(truncate_string("", 0), "");
}

#[test]
fn band_boundaries_are_inclusive() {
    let t = UsageThresholds { yellow: 7000, red: 9000 };
    assert_eq!(get_usage_color(90, 100, &t, true), Band::Critical);
    assert_eq!(get_usage_color(70, 100, &t, true), Band::Warning);
    assert_eq!(get_usage_color(6999, 10000, &t, true), Band::Normal);
    assert_eq!(get_usage_color(100, 100, &t, false), Band::Neutral);
    assert_eq!(get_usage_color(0, 0, &t, true), Band::Normal);
    let inverted = UsageThresholds { yellow: 9000, red: 7000 };
    assert!(inverted.is_inverted());
    assert!(!t.is_inverted());
    assert_eq!(get_usage_color(95, 100, &inverted, true), Band::Critical);
    assert_eq!(get_usage_color(80, 100, &inverted, true), Band::Critical);
    assert_eq!(get_usage_color(50, 100, &inverted, true), Band::Normal);
}

#[test]
fn progress_bar_rounds_half_up() {
    let half = disk("a", "/a", 100, 50);
    assert_eq!(
        create_progress_bar(&half, true),
        format!("{}{} 50.0%", "█".repeat(10), "░".repeat(10))
    );
    let eighth = disk("b", "/b", 8, 7);
    assert_eq!(
        create_progress_bar(&eighth, true),
        format!("{}{} 12.5%", "█".repeat(3), "░".repeat(17))
    );
    assert_eq!(create_progress_bar(&eighth, false), "12.5%");
}

#[test]
fn end_to_end_two_volumes() {
    let collector = DiskCollector::new(vec![
        reading("sdb1", "/home", 100 * GB, 90 * GB),
        reading("sda1", "/", 100 * GB, 50 * GB),
    ]);
    let filtered = collector.get_filtered_disks(1, false);
    assert_eq!(filtered.len(), 2);
    let t = UsageThresholds::default();
    match build_report(&collector, SortBy::Usage, 1, false, &t, false, true) {
        Outcome::Report(lines) => {
            assert_eq!(lines.len(), 6);
            assert!(lines[0].text.starts_with("Filesystem"));
            assert_eq!(lines[1].text, "-".repeat(lines[0].text.len()));
            assert_eq!(lines[1].text.len(), 121);
            assert!(lines[2].text.starts_with("sda1"));
            assert!(lines[3].text.starts_with("sdb1"));
            assert!(lines[2].text.contains(" / "));
            assert!(lines[3].text.contains("/home"));
            assert_eq!(lines[4].text, "");
            assert_eq!(
                lines[5].text,
                "Total: 200.00 GB size, 60.00 GB used, 140.00 GB available"
            );
            assert_eq!(lines[5].style, LineStyle::Plain);
        }
        Outcome::NothingToShow => panic!("expected a report"),
    }
    match build_report(&collector, SortBy::Usage, 1, false, &t, true, true) {
        Outcome::Report(lines) => {
            assert_eq!(lines.len(), 5);
            assert_eq!(lines[0].style, LineStyle::BoldUnderline);
            assert_eq!(lines[1].style, LineStyle::Colored(Band::Normal));
            assert_eq!(lines[4].style, LineStyle::Bold);
        }
        Outcome::NothingToShow => panic!("expected a report"),
    }
}

#[test]
fn rows_are_padded_to_fixed_columns() {
    let d = disk("sda1", "/", 100 * GB, 50 * GB);
    let lines = display_disks(&vec![d], &UsageThresholds::default(), false, false);
    let expected = format!(
        "{:<20} {:<30} {:<12} {:<12} {:<12} {}",
        "sda1", "/", "100.00 GB", "50.00 GB", "50.00 GB", "50.0%"
    );
    assert_eq!(lines[2].text, expected);
    let long = disk("a-very-long-device-name-here", "/mnt/x", 1, 0);
    let lines = display_disks(&vec![long], &UsageThresholds::default(), false, false);
    assert!(lines[2].text.starts_with("a-very-long-devic... /mnt/x"));
}

#[test]
fn nothing_to_show_after_filtering() {
    let collector = DiskCollector::new(vec![reading("tiny", "/t", 1024, 0)]);
    let t = UsageThresholds::default();
    assert!(matches!(
        build_report(&collector, SortBy::Size, 1, false, &t, false, false),
        Outcome::NothingToShow
    ));
    match build_report(&collector, SortBy::Size, 1, true, &t, false, false) {
        Outcome::Report(lines) => assert_eq!(lines.len(), 5),
        Outcome::NothingToShow => panic!("expected a report"),
    }
    let empty = DiskCollector::new(Vec::new());
    match build_report(&empty, SortBy::Size, 1, true, &t, false, false) {
        Outcome::Report(lines) => {
            assert_eq!(lines.len(), 1);
            assert_eq!(lines[0].text, "No disks found matching the criteria.");
        }
        Outcome::NothingToShow => panic!("expected the notice"),
    }
}

#[test]
fn sort_option_parsing() {
    assert_eq!(cli("usage").parse_sort_by(), Ok(SortBy::Usage));
    assert_eq!(cli("USAGE").parse_sort_by(), Ok(SortBy::Usage));
    assert_eq!(cli("S").parse_sort_by(), Ok(SortBy::Size));
    assert_eq!(cli("MountPoint").parse_sort_by(), Ok(SortBy::MountPoint));
    assert_eq!(cli("m").parse_sort_by(), Ok(SortBy::MountPoint));
    assert_eq!(
        cli("Bogus").parse_sort_by(),
        Err("Invalid sort option: 'Bogus'. Use 'usage', 'size', or 'mount'".to_string())
    );
    assert_eq!(sort_by_name("Usage"), None);
    assert_eq!(sort_by_name("size"), Some(SortBy::Size));
    let t = cli("u").get_thresholds();
    assert_eq!((t.yellow, t.red), (7000, 9000));
}
