//! Arguments handed to the external tools.
//!
//! The orchestrator's destructive steps drive the resize and
//! partitioning tools with textual arguments derived from the planned
//! layout; those texts are built and pinned down here, so that the
//! caller only passes them through.

use vstd::prelude::*;

use crate::sizes::{dec_digits, push_dec_digits};

verus! {

/// The filesystem block size the resize tool works in.
pub const FS_BLOCK_SIZE: u64 = 4096;

/// The size argument handed to the resize tool: the planned root byte
/// size expressed in whole 4 KiB blocks, written as kilobytes.
pub open spec fn resize_size_argument(new_size: u64) -> Seq<u8> {
    dec_digits(((new_size as int / FS_BLOCK_SIZE as int) * 4) as int) + seq![75u8]  // 'K'
}

/// Render the resize tool's size argument for the planned root size.
pub fn resize2fs_size_argument(new_size: u64) -> (r: Vec<u8>)
    ensures
        r@ == resize_size_argument(new_size),
{
    let blocks = new_size / FS_BLOCK_SIZE;
    let mut out: Vec<u8> = Vec::new();
    push_dec_digits(blocks * 4, &mut out);
    out.push(75);  // 'K'
    assert(out@ =~= resize_size_argument(new_size));
    out
}

/// A sector index as the partitioning tool expects it: digits with the
/// sector-unit suffix.
pub open spec fn sector_argument_spec(sector: u64) -> Seq<u8> {
    dec_digits(sector as int) + seq![115u8]  // 's'
}

/// Render a sector index argument for the partitioning tool.
pub fn sector_argument(sector: u64) -> (r: Vec<u8>)
    ensures
        r@ == sector_argument_spec(sector),
{
    let mut out: Vec<u8> = Vec::new();
    push_dec_digits(sector, &mut out);
    out.push(115);  // 's'
    assert(out@ =~= sector_argument_spec(sector));
    out
}

/// The script piped to the partitioning tool to rewrite the root
/// partition's table entry: delete entry 2, recreate it from the
/// recorded start sector to the new end sector, quit.
pub open spec fn resize_script_spec(start: u64, end: u64) -> Seq<u8> {
    // "rm 2\nmkpart primary ext4 "
    seq![114u8, 109u8, 32u8, 50u8, 10u8, 109u8, 107u8, 112u8, 97u8, 114u8, 116u8, 32u8, 112u8,
        114u8, 105u8, 109u8, 97u8, 114u8, 121u8, 32u8, 101u8, 120u8, 116u8, 52u8, 32u8]
        + dec_digits(start as int)
        // "s "
        + seq![115u8, 32u8] + dec_digits(end as int)
        // "s\nquit\n"
        + seq![115u8, 10u8, 113u8, 117u8, 105u8, 116u8, 10u8]
}

/// Build the root-resize script for the partitioning tool's stdin.
pub fn parted_resize_script(start: u64, end: u64) -> (r: Vec<u8>)
    ensures
        r@ == resize_script_spec(start, end),
{
    let head: [u8; 25] = [
        114, 109, 32, 50, 10, 109, 107, 112, 97, 114, 116, 32, 112, 114, 105, 109, 97, 114, 121,
        32, 101, 120, 116, 52, 32,
    ];
    let mid: [u8; 2] = [115, 32];
    let tail: [u8; 7] = [115, 10, 113, 117, 105, 116, 10];
    let mut out: Vec<u8> = Vec::new();
    crate::inspect::push_bytes(&mut out, head.as_slice());
    push_dec_digits(start, &mut out);
    crate::inspect::push_bytes(&mut out, mid.as_slice());
    push_dec_digits(end, &mut out);
    crate::inspect::push_bytes(&mut out, tail.as_slice());
    assert(out@ =~= resize_script_spec(start, end));
    out
}

} // verus!
