//! Verified core of a boot-disk repartitioning tool.
//!
//! The library plans a sector-accurate partition layout (shrunk root,
//! optional swap, optional `/var`, mandatory `/home`), validates requested
//! sizes, parses the reports of the external partitioning tool, and drives
//! the step-sequenced migration pipeline as a verified state machine.
//! All subprocess invocation and file I/O live outside the library; the
//! library only decides and computes, and every public function carries a
//! contract for what it decides.

use vstd::prelude::*;

pub mod commands;
pub mod errors;
pub mod fstab;
pub mod inspect;
pub mod layout;
pub mod orchestrator;
pub mod sizes;

verus! {

/// Fixed size of a disk sector in bytes; all partition boundaries are
/// expressed as indices of such sectors.
pub const SECTOR_SIZE: u64 = 512;

/// Sector-count granularity to which every partition boundary is rounded
/// (2048 sectors = 1 MiB at 512-byte sectors).
pub const ALIGNMENT: u64 = 2048;

/// Largest sector index that can be aligned upward without overflowing.
pub const MAX_ALIGN_INPUT: u64 = 0xffff_ffff_ffff_f800;

/// Mathematical meaning of aligning a sector index up to the next
/// multiple of [`ALIGNMENT`].
pub open spec fn spec_align_sector(sector: int) -> int {
    ((sector + (ALIGNMENT - 1)) / (ALIGNMENT as int)) * (ALIGNMENT as int)
}

/// Aligning a sector index never moves it down, moves it up by less than
/// one alignment boundary, and lands on a multiple of the boundary.
pub proof fn lemma_align_sector_bounds(x: int)
    requires
        0 <= x,
    ensures
        spec_align_sector(x) % (ALIGNMENT as int) == 0,
        x <= spec_align_sector(x) < x + ALIGNMENT,
{
}

/// Round a sector index up to the next multiple of the alignment boundary.
pub fn align_sector(sector: u64) -> (r: u64)
    requires
        sector <= MAX_ALIGN_INPUT,
    ensures
        r == spec_align_sector(sector as int),
        r % ALIGNMENT == 0,
        sector <= r < sector + ALIGNMENT,
{
    ((sector + (ALIGNMENT - 1)) / ALIGNMENT) * ALIGNMENT
}

} // verus!
