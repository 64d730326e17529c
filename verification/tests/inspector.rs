use rpi_fs_shrink::errors::Error;
use rpi_fs_shrink::inspect::{
    build_disk_geometry, is_active_root_in_mounts, is_sd_card_device, next_partition_number,
    normalize_device_path, parse_disk_size, parse_partition_start, partition_device_path,
    root_partition_path,
};

#[test]
fn normalizes_bare_device_tokens() {
    assert_eq!(normalize_device_path(b"sda"), b"/dev/sda".to_vec());
    assert_eq!(normalize_device_path(b"/dev/sda"), b"/dev/sda".to_vec());
    assert_eq!(normalize_device_path(b"mmcblk0"), b"/dev/mmcblk0".to_vec());
}

#[test]
fn classifies_sd_cards_by_name() {
    assert!(is_sd_card_device(b"/dev/mmcblk0"));
    assert!(!is_sd_card_device(b"/dev/sda"));
    assert!(!is_sd_card_device(b"/dev/nvme0n1"));
}

#[test]
fn derives_the_root_partition_path() {
    assert_eq!(root_partition_path(b"/dev/mmcblk0", true), b"/dev/mmcblk0p2".to_vec());
    assert_eq!(root_partition_path(b"/dev/sda", false), b"/dev/sda2".to_vec());
}

#[test]
fn derives_partition_device_paths() {
    assert_eq!(partition_device_path(b"/dev/mmcblk0", 3), b"/dev/mmcblk0p3".to_vec());
    assert_eq!(partition_device_path(b"/dev/nvme0n1", 5), b"/dev/nvme0n1p5".to_vec());
    assert_eq!(partition_device_path(b"/dev/sda", 3), b"/dev/sda3".to_vec());
}

#[test]
fn reads_the_disk_size_line() {
    let report = b"Model: Generic Flash (scsi)\nDisk /dev/sda: 32212254720B\nSector size: 512B\n";
    assert_eq!(parse_disk_size(report), Ok(32212254720));
}

#[test]
fn rejects_a_report_without_a_size_line() {
    assert_eq!(parse_disk_size(b"Error: no medium found\n"), Err(Error::ToolOutputError));
    assert_eq!(parse_disk_size(b""), Err(Error::ToolOutputError));
    // A size line without the byte marker does not match.
    assert_eq!(parse_disk_size(b"Disk /dev/sda: 32212254720\n"), Err(Error::ToolOutputError));
}

#[test]
fn reads_a_partition_start_sector() {
    let report = b"Number  Start  End\n 1      8192s  532479s\n 2      532480s  62333951s\n";
    assert_eq!(parse_partition_start(report, 1), Ok(8192));
    assert_eq!(parse_partition_start(report, 2), Ok(532480));
    assert_eq!(parse_partition_start(report, 3), Err(Error::ToolOutputError));
}

#[test]
fn partition_number_must_match_exactly() {
    // A line for partition 25 must not satisfy a search for partition 2.
    let report = b" 25  8192s  532479s\n";
    assert_eq!(parse_partition_start(report, 2), Err(Error::ToolOutputError));
    assert_eq!(parse_partition_start(report, 25), Ok(8192));
}

#[test]
fn next_partition_number_is_one_past_the_largest() {
    let report = b"Number  Start  End\n 1  a\n 2  b\n 3  c\n";
    assert_eq!(next_partition_number(report), 4);
    assert_eq!(next_partition_number(b"no table lines here\n"), 1);
    assert_eq!(next_partition_number(b""), 1);
}

#[test]
fn detects_the_active_root_disk() {
    let mounts = b"/dev/sda2 / ext4 rw,relatime 0 0\nproc /proc proc rw 0 0\n";
    // The root device is a partition of the target device.
    assert!(is_active_root_in_mounts(mounts, b"/dev/sda"));
    // The exact device matches too.
    assert!(is_active_root_in_mounts(mounts, b"/dev/sda2"));
    // Another disk does not.
    assert!(!is_active_root_in_mounts(mounts, b"/dev/sdb"));
    // A device mounted elsewhere than `/` does not count.
    let other = b"/dev/sdb1 /data ext4 rw 0 0\n";
    assert!(!is_active_root_in_mounts(other, b"/dev/sdb"));
}

#[test]
fn builds_the_geometry_snapshot() {
    let report = b"Disk /dev/mmcblk0: 31914983424B\n";
    let g = build_disk_geometry(b"mmcblk0", report).unwrap();
    assert_eq!(g.device, b"/dev/mmcblk0".to_vec());
    assert_eq!(g.size_bytes, 31914983424);
    assert_eq!(g.size_sectors, 31914983424 / 512);
    assert!(g.is_sd_card);
    assert_eq!(g.root_partition, b"/dev/mmcblk0p2".to_vec());

    assert_eq!(
        build_disk_geometry(b"sda", b"garbage").unwrap_err(),
        Error::ToolOutputError
    );
}

#[test]
fn disk_size_takes_the_leftmost_match() {
    let report = b"Disk /dev/sda: 100B\nDisk /dev/sdb: 200B\n";
    assert_eq!(parse_disk_size(report), Ok(100));
}

#[test]
fn oversized_start_sectors_are_tool_output_errors() {
    // A start sector that does not fit in 64 bits cannot be used.
    let report = b" 2  99999999999999999999999s  x\n";
    assert_eq!(parse_partition_start(report, 2), Err(Error::ToolOutputError));
}

#[test]
fn next_partition_number_ignores_unparsable_leading_numbers() {
    // A leading number beyond 32 bits does not parse as a partition
    // number and its line is ignored.
    let report = b" 99999999999999999999 x\n 2 y\n";
    assert_eq!(next_partition_number(report), 3);
    // Digits not followed by whitespace are not a table line either.
    assert_eq!(next_partition_number(b"7seven\n"), 1);
}

#[test]
fn root_mounted_from_an_unrelated_name_is_not_the_target() {
    let mounts = b"rootfs / rootfs rw 0 0\n";
    assert!(!is_active_root_in_mounts(mounts, b"/dev/sda"));
}

