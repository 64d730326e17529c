//! The partition layout planner.
//!
//! Given the disk geometry, the requested root/swap/`/var` byte sizes and
//! the existing root partition's start sector, the planner computes aligned
//! start/end sectors for every partition.  `/home` always absorbs all
//! remaining sectors up to the disk's last sector, and the plan is rejected
//! when `/home` would receive less than half of the disk.

use vstd::prelude::*;

use crate::errors::Error;
use crate::{align_sector, spec_align_sector, ALIGNMENT, MAX_ALIGN_INPUT, SECTOR_SIZE};

verus! {

/// Upper bound on a disk's byte size that the planner accepts; keeps all
/// sector arithmetic far away from `u64` overflow (2^61 bytes = 2 EiB).
pub const MAX_DISK_BYTES: u64 = 0x2000_0000_0000_0000;

/// Immutable snapshot of the target device, captured once at start.
/// Device paths are byte strings, as handed over by the caller.
#[derive(Debug)]
pub struct DiskGeometry {
    /// Absolute device path (`/dev/...`).
    pub device: Vec<u8>,
    /// Total device size in bytes.
    pub size_bytes: u64,
    /// Total device size in whole 512-byte sectors.
    pub size_sectors: u64,
    /// Whether the device path classifies the device as an SD card.
    pub is_sd_card: bool,
    /// Path of the existing root partition on the device.
    pub root_partition: Vec<u8>,
}

impl DiskGeometry {
    /// The snapshot is consistent: the sector count is derived from the
    /// byte size, and the disk is small enough that sector arithmetic
    /// cannot overflow.
    pub open spec fn wf(&self) -> bool {
        &&& self.size_sectors == self.size_bytes as int / SECTOR_SIZE as int
        &&& self.size_bytes <= MAX_DISK_BYTES
    }
}

/// The planner's output: a size in bytes and an inclusive sector range
/// `[start, end]` for root, swap, `/var` and `/home`.  An absent swap or
/// `/var` partition has size 0 and the range `[0, 0]`.
#[derive(Debug)]
pub struct PartitionLayout {
    pub root_size_bytes: u64,
    pub swap_size_bytes: u64,
    pub var_size_bytes: u64,
    pub home_size_bytes: u64,
    pub root_start: u64,
    pub root_end: u64,
    pub swap_start: u64,
    pub swap_end: u64,
    pub var_start: u64,
    pub var_end: u64,
    pub home_start: u64,
    pub home_end: u64,
}

/// A requested size of 0 stands for an absent partition.
pub open spec fn or0(size: Option<u64>) -> u64 {
    match size {
        Some(v) => v,
        None => 0,
    }
}

/// A byte count converted to whole sectors (floor division).
pub open spec fn sectors_of(bytes: u64) -> int {
    bytes as int / SECTOR_SIZE as int
}

/// Last sector of the shrunk root partition.
pub open spec fn root_end_sec(root_start: u64, root_size: u64) -> int {
    spec_align_sector(root_start + sectors_of(root_size)) - 1
}

/// First sector of the swap partition (when requested).
pub open spec fn swap_start_sec(root_start: u64, root_size: u64) -> int {
    spec_align_sector(root_end_sec(root_start, root_size) + 1)
}

/// Last sector of the swap partition (when requested).
pub open spec fn swap_end_sec(root_start: u64, root_size: u64, swap_size: u64) -> int {
    spec_align_sector(swap_start_sec(root_start, root_size) + sectors_of(swap_size)) - 1
}

/// First sector of the `/var` partition (when requested): the aligned
/// sector after whichever of swap and root comes last.
pub open spec fn var_start_sec(root_start: u64, root_size: u64, swap_size: u64) -> int {
    if swap_size > 0 {
        spec_align_sector(swap_end_sec(root_start, root_size, swap_size) + 1)
    } else {
        spec_align_sector(root_end_sec(root_start, root_size) + 1)
    }
}

/// Last sector of the `/var` partition (when requested).
pub open spec fn var_end_sec(root_start: u64, root_size: u64, swap_size: u64, var_size: u64) -> int {
    spec_align_sector(var_start_sec(root_start, root_size, swap_size) + sectors_of(var_size)) - 1
}

/// First sector of the `/home` partition: the aligned sector after the
/// last of the preceding partitions.
pub open spec fn home_start_sec(root_start: u64, root_size: u64, swap_size: u64, var_size: u64) -> int {
    if var_size > 0 {
        spec_align_sector(var_end_sec(root_start, root_size, swap_size, var_size) + 1)
    } else if swap_size > 0 {
        spec_align_sector(swap_end_sec(root_start, root_size, swap_size) + 1)
    } else {
        spec_align_sector(root_end_sec(root_start, root_size) + 1)
    }
}

/// Bytes left for `/home` when it starts at `home_start` and runs to the
/// disk's last sector; 0 when not even one sector is left.
pub open spec fn home_bytes_of(size_sectors: u64, home_start: int) -> int {
    if home_start <= size_sectors - 1 {
        (size_sectors - home_start) * SECTOR_SIZE
    } else {
        0
    }
}

/// Whether the plan must be rejected: `/home` would receive less than
/// half of the disk's bytes.
pub open spec fn plan_insufficient(
    geometry: DiskGeometry,
    root_start: u64,
    root_size: u64,
    swap_size: u64,
    var_size: u64,
) -> bool {
    home_bytes_of(geometry.size_sectors, home_start_sec(root_start, root_size, swap_size, var_size))
        < geometry.size_bytes as int / 2
}

/// Bytes missing from the half-disk floor when the plan is rejected.
pub open spec fn plan_shortfall(
    geometry: DiskGeometry,
    root_start: u64,
    root_size: u64,
    swap_size: u64,
    var_size: u64,
) -> int {
    geometry.size_bytes as int / 2
        - home_bytes_of(geometry.size_sectors, home_start_sec(root_start, root_size, swap_size, var_size))
}

/// Every field of an accepted layout, as a function of the request.
pub open spec fn layout_matches(
    l: PartitionLayout,
    geometry: DiskGeometry,
    root_start: u64,
    root_size: u64,
    swap_size: u64,
    var_size: u64,
) -> bool {
    &&& l.root_size_bytes == root_size
    &&& l.swap_size_bytes == swap_size
    &&& l.var_size_bytes == var_size
    &&& l.home_size_bytes == home_bytes_of(
        geometry.size_sectors,
        home_start_sec(root_start, root_size, swap_size, var_size),
    )
    &&& l.root_start == root_start
    &&& l.root_end == root_end_sec(root_start, root_size)
    &&& l.swap_start == if swap_size > 0 { swap_start_sec(root_start, root_size) } else { 0int }
    &&& l.swap_end == if swap_size > 0 { swap_end_sec(root_start, root_size, swap_size) } else { 0int }
    &&& l.var_start == if var_size > 0 { var_start_sec(root_start, root_size, swap_size) } else { 0int }
    &&& l.var_end == if var_size > 0 { var_end_sec(root_start, root_size, swap_size, var_size) } else { 0int }
    &&& l.home_start == home_start_sec(root_start, root_size, swap_size, var_size)
    &&& l.home_end == geometry.size_sectors - 1
}

/// Law: an accepted layout gives `/home` at least half of the disk's
/// bytes; a request below that floor is the exact case in which planning
/// fails with `InsufficientSpaceError`.
pub proof fn lemma_home_at_least_half_disk(
    geometry: DiskGeometry,
    root_start: u64,
    root_size: u64,
    swap_size: u64,
    var_size: u64,
    l: PartitionLayout,
)
    requires
        layout_matches(l, geometry, root_start, root_size, swap_size, var_size),
        !plan_insufficient(geometry, root_start, root_size, swap_size, var_size),
    ensures
        l.home_size_bytes >= geometry.size_bytes as int / 2,
{
}

/// Law: in any layout the planner accepts, the partition ranges are
/// ordered root, swap, `/var`, `/home`, strictly increasing and pairwise
/// disjoint; consecutive ranges are contiguous modulo alignment (the gap
/// between a range's end and the next start is less than one alignment
/// boundary); and every computed start sector is a multiple of the
/// alignment boundary.
///
/// A present partition must be requested with at least one sector's worth
/// of bytes, and the disk must have at least two bytes, for its range to
/// be non-empty.  Every request that survives the pre-flight gates meets
/// this: optional sizes below one sector are rejected there, and the
/// root policy bound lies far above one sector.
pub proof fn lemma_layout_ranges(
    geometry: DiskGeometry,
    root_start: u64,
    root_size: u64,
    swap_size: u64,
    var_size: u64,
)
    requires
        geometry.wf(),
        0 < root_start < geometry.size_sectors,
        SECTOR_SIZE <= root_size,
        swap_size == 0 || SECTOR_SIZE <= swap_size,
        var_size == 0 || SECTOR_SIZE <= var_size,
        2 <= geometry.size_bytes,
        !plan_insufficient(geometry, root_start, root_size, swap_size, var_size),
    ensures
        // The root range is non-empty.
        root_start <= root_end_sec(root_start, root_size),
        // Swap follows root: disjoint, increasing, gap below one boundary.
        swap_size > 0 ==> root_end_sec(root_start, root_size)
            < swap_start_sec(root_start, root_size)
            <= swap_end_sec(root_start, root_size, swap_size),
        swap_size > 0 ==> swap_start_sec(root_start, root_size)
            < root_end_sec(root_start, root_size) + 1 + ALIGNMENT,
        // `/var` follows whichever of swap and root comes last.
        var_size > 0 && swap_size > 0 ==> swap_end_sec(root_start, root_size, swap_size)
            < var_start_sec(root_start, root_size, swap_size)
            < swap_end_sec(root_start, root_size, swap_size) + 1 + ALIGNMENT,
        var_size > 0 && swap_size == 0 ==> root_end_sec(root_start, root_size)
            < var_start_sec(root_start, root_size, swap_size)
            < root_end_sec(root_start, root_size) + 1 + ALIGNMENT,
        var_size > 0 ==> var_start_sec(root_start, root_size, swap_size)
            <= var_end_sec(root_start, root_size, swap_size, var_size),
        // `/home` follows the last of the preceding ranges and is non-empty.
        var_size > 0 ==> var_end_sec(root_start, root_size, swap_size, var_size)
            < home_start_sec(root_start, root_size, swap_size, var_size)
            < var_end_sec(root_start, root_size, swap_size, var_size) + 1 + ALIGNMENT,
        var_size == 0 && swap_size > 0 ==> swap_end_sec(root_start, root_size, swap_size)
            < home_start_sec(root_start, root_size, swap_size, var_size)
            < swap_end_sec(root_start, root_size, swap_size) + 1 + ALIGNMENT,
        var_size == 0 && swap_size == 0 ==> root_end_sec(root_start, root_size)
            < home_start_sec(root_start, root_size, swap_size, var_size)
            < root_end_sec(root_start, root_size) + 1 + ALIGNMENT,
        home_start_sec(root_start, root_size, swap_size, var_size) <= geometry.size_sectors - 1,
        // Every computed boundary is aligned: each range ends one sector
        // short of a boundary, and each computed start lies on one.
        (root_end_sec(root_start, root_size) + 1) % (ALIGNMENT as int) == 0,
        swap_size > 0 ==> swap_start_sec(root_start, root_size) % (ALIGNMENT as int) == 0,
        var_size > 0 ==> var_start_sec(root_start, root_size, swap_size) % (ALIGNMENT as int) == 0,
        home_start_sec(root_start, root_size, swap_size, var_size) % (ALIGNMENT as int) == 0,
{
    crate::lemma_align_sector_bounds(root_start + sectors_of(root_size));
    assert(sectors_of(root_size) >= 1);
    let re = root_end_sec(root_start, root_size);
    if swap_size > 0 {
        crate::lemma_align_sector_bounds(re + 1);
        crate::lemma_align_sector_bounds(swap_start_sec(root_start, root_size) + sectors_of(swap_size));
        assert(sectors_of(swap_size) >= 1);
    }
    if var_size > 0 {
        if swap_size > 0 {
            crate::lemma_align_sector_bounds(swap_end_sec(root_start, root_size, swap_size) + 1);
        } else {
            crate::lemma_align_sector_bounds(re + 1);
        }
        crate::lemma_align_sector_bounds(
            var_start_sec(root_start, root_size, swap_size) + sectors_of(var_size),
        );
        assert(sectors_of(var_size) >= 1);
        crate::lemma_align_sector_bounds(var_end_sec(root_start, root_size, swap_size, var_size) + 1);
    } else if swap_size > 0 {
        crate::lemma_align_sector_bounds(swap_end_sec(root_start, root_size, swap_size) + 1);
    } else {
        crate::lemma_align_sector_bounds(re + 1);
    }
    // /home is non-empty because it holds at least half of a disk of at
    // least two bytes.
    let hs = home_start_sec(root_start, root_size, swap_size, var_size);
    assert(home_bytes_of(geometry.size_sectors, hs) >= geometry.size_bytes as int / 2);
    assert(geometry.size_bytes as int / 2 >= 1);
    assert(hs <= geometry.size_sectors - 1);
}

/// Compute the partition layout for the requested sizes, or fail with
/// `InsufficientSpaceError` (carrying the shortfall) when `/home` would
/// receive less than half of the disk.
///
/// `root_start` is the existing root partition's start sector, as read
/// from the partition table; a partition can never start at sector 0,
/// which the partition table itself occupies.
pub fn calculate_partition_layout(
    geometry: &DiskGeometry,
    root_size: u64,
    swap_size: Option<u64>,
    var_size: Option<u64>,
    root_start: u64,
) -> (r: Result<PartitionLayout, Error>)
    requires
        geometry.wf(),
        0 < root_start < geometry.size_sectors,
        root_size <= geometry.size_bytes,
        or0(swap_size) <= geometry.size_bytes,
        or0(var_size) <= geometry.size_bytes,
    ensures
        (r is Err) <==> plan_insufficient(*geometry, root_start, root_size, or0(swap_size), or0(var_size)),
        r matches Err(e) ==> e == (Error::InsufficientSpaceError {
            shortfall: plan_shortfall(*geometry, root_start, root_size, or0(swap_size), or0(var_size)) as u64,
        }),
        r matches Ok(l) ==> layout_matches(l, *geometry, root_start, root_size, or0(swap_size), or0(var_size)),
{
    let swap_size: u64 = match swap_size {
        Some(s) => s,
        None => 0,
    };
    let var_size: u64 = match var_size {
        Some(s) => s,
        None => 0,
    };

    // Convert byte sizes to whole sectors.
    let root_size_sectors = root_size / SECTOR_SIZE;
    let swap_size_sectors = swap_size / SECTOR_SIZE;
    let var_size_sectors = var_size / SECTOR_SIZE;

    // Partition boundaries, each start rounded up to the alignment boundary.
    let root_end = align_sector(root_start + root_size_sectors) - 1;

    let swap_start = if swap_size > 0 { align_sector(root_end + 1) } else { 0 };
    let swap_end = if swap_size > 0 { align_sector(swap_start + swap_size_sectors) - 1 } else { 0 };

    let var_start = if var_size > 0 {
        if swap_size > 0 {
            align_sector(swap_end + 1)
        } else {
            align_sector(root_end + 1)
        }
    } else {
        0
    };
    let var_end = if var_size > 0 { align_sector(var_start + var_size_sectors) - 1 } else { 0 };

    let home_start = if var_size > 0 {
        align_sector(var_end + 1)
    } else if swap_size > 0 {
        align_sector(swap_end + 1)
    } else {
        align_sector(root_end + 1)
    };

    // The home partition gets everything up to the disk's last sector.
    let home_end = geometry.size_sectors - 1;

    let home_size_bytes = if home_start <= home_end {
        (home_end - home_start + 1) * SECTOR_SIZE
    } else {
        0
    };

    // Reject a plan that leaves /home less than half of the disk.
    let min_home_size = geometry.size_bytes / 2;
    if home_size_bytes < min_home_size {
        return Err(Error::InsufficientSpaceError { shortfall: min_home_size - home_size_bytes });
    }

    Ok(PartitionLayout {
        root_size_bytes: root_size,
        swap_size_bytes: swap_size,
        var_size_bytes: var_size,
        home_size_bytes,
        root_start,
        root_end,
        swap_start,
        swap_end,
        var_start,
        var_end,
        home_start,
        home_end,
    })
}

} // verus!
