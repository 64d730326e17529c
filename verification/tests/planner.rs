use rpi_fs_shrink::align_sector;
use rpi_fs_shrink::errors::Error;
use rpi_fs_shrink::layout::{calculate_partition_layout, DiskGeometry};

const GIB: u64 = 1024 * 1024 * 1024;
const SECTOR: u64 = 512;

fn geometry(size_bytes: u64, is_sd_card: bool) -> DiskGeometry {
    DiskGeometry {
        device: b"/dev/sda".to_vec(),
        size_bytes,
        size_sectors: size_bytes / SECTOR,
        is_sd_card,
        root_partition: b"/dev/sda2".to_vec(),
    }
}

#[test]
fn aligns_up_to_the_boundary() {
    assert_eq!(align_sector(0), 0);
    assert_eq!(align_sector(1), 2048);
    assert_eq!(align_sector(2048), 2048);
    assert_eq!(align_sector(2049), 4096);
    assert_eq!(align_sector(16785408), 16785408);
}

#[test]
fn minimum_root_on_32_gib_disk() {
    // root=8G, swap=None, var=None on a 32 GiB non-SD device whose root
    // partition starts at sector 8192.
    let g = geometry(32 * GIB, false);
    let layout = calculate_partition_layout(&g, 8 * GIB, None, None, 8192).unwrap();
    // root_end is the first alignment boundary at or past 8192 + 16777216,
    // minus one.
    assert_eq!(layout.root_start, 8192);
    assert_eq!(layout.root_end, 16785407);
    // home starts at the next boundary after root_end + 1.
    assert_eq!(layout.home_start, 16785408);
    assert_eq!(layout.home_end, 32 * GIB / SECTOR - 1);
    assert_eq!(layout.home_size_bytes, (layout.home_end - layout.home_start + 1) * SECTOR);
    // The resulting /home holds at least half the disk (16 GiB).
    assert!(layout.home_size_bytes >= 16 * GIB);
    assert_eq!(layout.swap_size_bytes, 0);
    assert_eq!(layout.var_size_bytes, 0);
    assert_eq!(layout.swap_start, 0);
    assert_eq!(layout.swap_end, 0);
}

#[test]
fn full_layout_with_swap_and_var() {
    let g = geometry(128 * GIB, false);
    let layout =
        calculate_partition_layout(&g, 16 * GIB, Some(4 * GIB), Some(8 * GIB), 2048).unwrap();
    // Ranges are ordered and pairwise disjoint.
    assert!(layout.root_start <= layout.root_end);
    assert!(layout.root_end < layout.swap_start);
    assert!(layout.swap_start <= layout.swap_end);
    assert!(layout.swap_end < layout.var_start);
    assert!(layout.var_start <= layout.var_end);
    assert!(layout.var_end < layout.home_start);
    assert!(layout.home_start <= layout.home_end);
    // Every computed start lies on the alignment boundary.
    assert_eq!(layout.swap_start % 2048, 0);
    assert_eq!(layout.var_start % 2048, 0);
    assert_eq!(layout.home_start % 2048, 0);
    // Consecutive ranges are contiguous modulo alignment.
    assert!(layout.swap_start - layout.root_end <= 2048);
    assert!(layout.var_start - layout.swap_end <= 2048);
    assert!(layout.home_start - layout.var_end <= 2048);
    assert_eq!(layout.home_end, 128 * GIB / SECTOR - 1);
}

#[test]
fn rejects_home_below_half_disk_with_shortfall() {
    // 20 GiB root on a 32 GiB disk leaves /home under the 16 GiB floor.
    let g = geometry(32 * GIB, false);
    let r = calculate_partition_layout(&g, 20 * GIB, None, None, 8192);
    // root_end = 8192 + 41943040 aligned (already a boundary) minus 1;
    // home runs from 41951232 to 67108863: 12880707584 bytes.
    let expected_shortfall = 16 * GIB - 12880707584u64;
    assert_eq!(r.unwrap_err(), Error::InsufficientSpaceError { shortfall: expected_shortfall });
}

#[test]
fn swap_and_var_consume_home_space() {
    // Root alone fits, but swap and var push /home below half the disk.
    let g = geometry(32 * GIB, false);
    let ok = calculate_partition_layout(&g, 8 * GIB, None, None, 8192);
    assert!(ok.is_ok());
    let r = calculate_partition_layout(&g, 8 * GIB, Some(6 * GIB), Some(4 * GIB), 8192);
    assert!(matches!(r, Err(Error::InsufficientSpaceError { .. })));
}
