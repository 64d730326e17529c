//! The persisted mount table.
//!
//! The orchestrator's fstab step reads the mounted root's `/etc/fstab`
//! in full, appends one line per created partition under a marker
//! comment, and writes the whole buffer back.  The identifier of each
//! partition comes from the identifier-lookup tool; its raw output is
//! trimmed here and an empty answer is rejected.  Reading and writing
//! the file, and running the lookup, stay with the caller.

use vstd::prelude::*;

use crate::errors::Error;
use crate::inspect::push_bytes;
use crate::sizes::{is_ascii_space, scan_ws, ws_span};

verus! {

/// Trailing whitespace run of `s[i..j]`.
pub open spec fn ws_suffix_span(s: Seq<u8>, i: int, j: int) -> nat
    decreases j - i,
{
    if 0 <= i < j <= s.len() && is_ascii_space(s[j - 1]) {
        1 + ws_suffix_span(s, i, j - 1)
    } else {
        0
    }
}

proof fn lemma_ws_suffix_span_of_run(s: Seq<u8>, i: int, start: int, j: int)
    requires
        0 <= i <= start <= j <= s.len(),
        forall|k: int| start <= k < j ==> is_ascii_space(s[k]),
        start == i || !is_ascii_space(s[start - 1]),
    ensures
        ws_suffix_span(s, i, j) == j - start,
    decreases j - start,
{
    if start < j {
        lemma_ws_suffix_span_of_run(s, i, start, j - 1);
    }
}

/// The identifier as the lookup tool's raw output states it: the output
/// stripped of surrounding whitespace, or nothing when only whitespace
/// remains.
pub open spec fn uuid_of_output(s: Seq<u8>) -> Option<Seq<u8>> {
    let b = s.len() as int - ws_suffix_span(s, 0, s.len() as int) as int;
    let a = ws_span(s, 0, b) as int;
    if a < b {
        Some(s.subrange(a, b))
    } else {
        None
    }
}

/// Trim the identifier-lookup tool's output down to the identifier, or
/// fail with `ToolOutputError` when the tool answered nothing.
pub fn parse_uuid_output(output: &[u8]) -> (r: Result<Vec<u8>, Error>)
    ensures
        match uuid_of_output(output@) {
            Some(u) => r matches Ok(v) && v@ == u,
            None => r == Err::<Vec<u8>, Error>(Error::ToolOutputError),
        },
{
    let n = output.len();
    // Strip trailing whitespace.
    let mut b = n;
    while b > 0 && (output[b - 1] == 32 || (9 <= output[b - 1] && output[b - 1] <= 13))
        invariant
            b <= n == output@.len(),
            forall|k: int| b <= k < n ==> is_ascii_space(output@[k]),
        decreases b,
    {
        b = b - 1;
    }
    proof {
        lemma_ws_suffix_span_of_run(output@, 0, b as int, n as int);
    }
    // Strip leading whitespace.
    let a = scan_ws(output, 0, b);
    if a >= b {
        return Err(Error::ToolOutputError);
    }
    let mut out: Vec<u8> = Vec::new();
    let mut k = a;
    assert(out@ =~= output@.subrange(a as int, a as int));
    while k < b
        invariant
            a <= k <= b <= output@.len(),
            out@ == output@.subrange(a as int, k as int),
        decreases b - k,
    {
        out.push(output[k]);
        k = k + 1;
        assert(out@ =~= output@.subrange(a as int, k as int));
    }
    Ok(out)
}

/// The field prefix of a generated mount-table line.
pub open spec fn uuid_prefix() -> Seq<u8> {
    seq![85u8, 85u8, 73u8, 68u8, 61u8]  // "UUID="
}

/// The fixed columns of the swap line: no mount point, swap, enabled.
pub open spec fn swap_entry_tail() -> Seq<u8> {
    // "  none  swap  sw  0  0\n"
    seq![32u8, 32u8, 110u8, 111u8, 110u8, 101u8, 32u8, 32u8, 115u8, 119u8, 97u8, 112u8, 32u8,
        32u8, 115u8, 119u8, 32u8, 32u8, 48u8, 32u8, 32u8, 48u8, 10u8]
}

/// The fixed columns of the `/var` line.
pub open spec fn var_entry_tail() -> Seq<u8> {
    // "  /var  btrfs  defaults  0  2\n"
    seq![32u8, 32u8, 47u8, 118u8, 97u8, 114u8, 32u8, 32u8, 98u8, 116u8, 114u8, 102u8, 115u8,
        32u8, 32u8, 100u8, 101u8, 102u8, 97u8, 117u8, 108u8, 116u8, 115u8, 32u8, 32u8, 48u8,
        32u8, 32u8, 50u8, 10u8]
}

/// The fixed columns of the `/home` line.
pub open spec fn home_entry_tail() -> Seq<u8> {
    // "  /home  ext4  defaults  0  2\n"
    seq![32u8, 32u8, 47u8, 104u8, 111u8, 109u8, 101u8, 32u8, 32u8, 101u8, 120u8, 116u8, 52u8,
        32u8, 32u8, 100u8, 101u8, 102u8, 97u8, 117u8, 108u8, 116u8, 115u8, 32u8, 32u8, 48u8,
        32u8, 32u8, 50u8, 10u8]
}

/// The marker comment written above the generated lines.
pub open spec fn fstab_marker() -> Seq<u8> {
    // "\n# Added by rpi-fs-shrink\n"
    seq![10u8, 35u8, 32u8, 65u8, 100u8, 100u8, 101u8, 100u8, 32u8, 98u8, 121u8, 32u8, 114u8,
        112u8, 105u8, 45u8, 102u8, 115u8, 45u8, 115u8, 104u8, 114u8, 105u8, 110u8, 107u8, 10u8]
}

pub open spec fn opt_uuid_view(o: Option<&Vec<u8>>) -> Option<Seq<u8>> {
    match o {
        Some(v) => Some(v@),
        None => None,
    }
}

/// The whole rewritten mount table: the existing content, the marker
/// comment, then one line per created partition, swap and `/var` lines
/// only when those partitions were created, the `/home` line always.
pub open spec fn updated_fstab(
    existing: Seq<u8>,
    swap_uuid: Option<Seq<u8>>,
    var_uuid: Option<Seq<u8>>,
    home_uuid: Seq<u8>,
) -> Seq<u8> {
    existing + fstab_marker() + (match swap_uuid {
        Some(u) => uuid_prefix() + u + swap_entry_tail(),
        None => Seq::empty(),
    }) + (match var_uuid {
        Some(u) => uuid_prefix() + u + var_entry_tail(),
        None => Seq::empty(),
    }) + uuid_prefix() + home_uuid + home_entry_tail()
}

/// Build the full new mount-table content from the existing content and
/// the identifiers of the created partitions.
pub fn updated_fstab_content(
    existing: &[u8],
    swap_uuid: Option<&Vec<u8>>,
    var_uuid: Option<&Vec<u8>>,
    home_uuid: &[u8],
) -> (r: Vec<u8>)
    ensures
        r@ == updated_fstab(
            existing@,
            opt_uuid_view(swap_uuid),
            opt_uuid_view(var_uuid),
            home_uuid@,
        ),
{
    let prefix: [u8; 5] = [85, 85, 73, 68, 61];
    let swap_tail: [u8; 23] = [
        32, 32, 110, 111, 110, 101, 32, 32, 115, 119, 97, 112, 32, 32, 115, 119, 32, 32, 48, 32,
        32, 48, 10,
    ];
    let var_tail: [u8; 30] = [
        32, 32, 47, 118, 97, 114, 32, 32, 98, 116, 114, 102, 115, 32, 32, 100, 101, 102, 97, 117,
        108, 116, 115, 32, 32, 48, 32, 32, 50, 10,
    ];
    let home_tail: [u8; 30] = [
        32, 32, 47, 104, 111, 109, 101, 32, 32, 101, 120, 116, 52, 32, 32, 100, 101, 102, 97, 117,
        108, 116, 115, 32, 32, 48, 32, 32, 50, 10,
    ];
    let marker: [u8; 26] = [
        10, 35, 32, 65, 100, 100, 101, 100, 32, 98, 121, 32, 114, 112, 105, 45, 102, 115, 45, 115,
        104, 114, 105, 110, 107, 10,
    ];
    proof {
        assert(prefix@ =~= uuid_prefix());
        assert(swap_tail@ =~= swap_entry_tail());
        assert(var_tail@ =~= var_entry_tail());
        assert(home_tail@ =~= home_entry_tail());
        assert(marker@ =~= fstab_marker());
    }

    let mut out: Vec<u8> = Vec::new();
    push_bytes(&mut out, existing);
    push_bytes(&mut out, marker.as_slice());
    match swap_uuid {
        Some(u) => {
            push_bytes(&mut out, prefix.as_slice());
            push_bytes(&mut out, u.as_slice());
            push_bytes(&mut out, swap_tail.as_slice());
        },
        None => {},
    }
    match var_uuid {
        Some(u) => {
            push_bytes(&mut out, prefix.as_slice());
            push_bytes(&mut out, u.as_slice());
            push_bytes(&mut out, var_tail.as_slice());
        },
        None => {},
    }
    push_bytes(&mut out, prefix.as_slice());
    push_bytes(&mut out, home_uuid);
    push_bytes(&mut out, home_tail.as_slice());
    assert(out@ =~= updated_fstab(
        existing@,
        opt_uuid_view(swap_uuid),
        opt_uuid_view(var_uuid),
        home_uuid@,
    ));
    out
}

} // verus!
