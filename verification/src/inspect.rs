//! The disk inspector's computations.
//!
//! Everything here is pure: normalizing a device token to an absolute
//! path, classifying a device as an SD card by its name, deriving
//! partition device paths, deciding from the live mount table whether a
//! device is the active root disk, and pattern-matching the partitioning
//! tool's free-text reports for the disk size, a partition's start sector
//! and the next free partition number.  Reading `/proc/mounts` and
//! invoking the tool stay with the caller.

use vstd::prelude::*;

use crate::errors::Error;
use crate::layout::{DiskGeometry, MAX_DISK_BYTES};
use crate::sizes::{dec_digits, digit_span, digits_val, is_ascii_space, scan_digits, scan_ws, ws_span};
use crate::SECTOR_SIZE;

verus! {

/// `p` is a prefix of `s`.
pub open spec fn is_prefix(p: Seq<u8>, s: Seq<u8>) -> bool {
    p.len() <= s.len() && p == s.subrange(0, p.len() as int)
}

/// `pat` occurs somewhere in `s`.
pub open spec fn contains_seq(s: Seq<u8>, pat: Seq<u8>) -> bool {
    exists|k: int|
        0 <= k <= s.len() - pat.len() && #[trigger] s.subrange(k, k + pat.len()) == pat
}

/// The absolute device path prefix `/dev/`.
pub open spec fn dev_prefix() -> Seq<u8> {
    seq![47u8, 100u8, 101u8, 118u8, 47u8]
}

/// The SD-card naming pattern `mmcblk`.
pub open spec fn sd_pattern() -> Seq<u8> {
    seq![109u8, 109u8, 99u8, 98u8, 108u8, 107u8]
}

/// The NVMe naming pattern `nvme`.
pub open spec fn nvme_pattern() -> Seq<u8> {
    seq![110u8, 118u8, 109u8, 101u8]
}

/// Append all of `src` to `out`.
pub fn push_bytes(out: &mut Vec<u8>, src: &[u8])
    ensures
        final(out)@ == old(out)@ + src@,
{
    let mut k: usize = 0;
    assert(out@ =~= old(out)@ + src@.subrange(0, 0));
    while k < src.len()
        invariant
            k <= src@.len(),
            out@ == old(out)@ + src@.subrange(0, k as int),
        decreases src@.len() - k,
    {
        out.push(src[k]);
        k = k + 1;
        assert(out@ =~= old(out)@ + src@.subrange(0, k as int));
    }
    assert(out@ =~= old(out)@ + src@);
}

/// Whether `s` carries exactly the bytes of `pat` at position `at`.
pub fn bytes_eq_at(s: &[u8], at: usize, pat: &[u8]) -> (r: bool)
    requires
        at + pat@.len() <= s@.len(),
    ensures
        r <==> s@.subrange(at as int, at + pat@.len()) == pat@,
{
    let n = s.len();
    let mut k: usize = 0;
    while k < pat.len()
        invariant
            k <= pat@.len(),
            at + pat@.len() <= n == s@.len(),
            forall|j: int| 0 <= j < k ==> s@[at + j] == pat@[j],
        decreases pat@.len() - k,
    {
        if s[at + k] != pat[k] {
            assert(s@.subrange(at as int, at + pat@.len())[k as int] != pat@[k as int]);
            return false;
        }
        k = k + 1;
    }
    assert(s@.subrange(at as int, at + pat@.len()) =~= pat@);
    true
}

/// Whether `p` is a prefix of `s`.
pub fn starts_with_bytes(s: &[u8], p: &[u8]) -> (r: bool)
    ensures
        r == is_prefix(p@, s@),
{
    if p.len() > s.len() {
        return false;
    }
    bytes_eq_at(s, 0, p)
}

/// Whether `pat` occurs somewhere in `s`.
pub fn contains_bytes(s: &[u8], pat: &[u8]) -> (r: bool)
    requires
        1 <= pat@.len(),
    ensures
        r == contains_seq(s@, pat@),
{
    if pat.len() > s.len() {
        assert(!contains_seq(s@, pat@));
        return false;
    }
    let n = s.len();
    let last = n - pat.len();
    let mut k: usize = 0;
    while k <= last
        invariant
            1 <= pat@.len(),
            n == s@.len(),
            last == s@.len() - pat@.len(),
            k <= last + 1,
            forall|j: int| 0 <= j < k ==> #[trigger] s@.subrange(j, j + pat@.len()) != pat@,
        decreases last + 1 - k,
    {
        if bytes_eq_at(s, k, pat) {
            assert(contains_seq(s@, pat@));
            return true;
        }
        k = k + 1;
    }
    assert(!contains_seq(s@, pat@));
    false
}

/// A device token normalized to an absolute path under `/dev/`.
pub open spec fn normalized_device(s: Seq<u8>) -> Seq<u8> {
    if is_prefix(dev_prefix(), s) {
        s
    } else {
        dev_prefix() + s
    }
}

/// Normalize a raw device token to an absolute `/dev/...` path.
pub fn normalize_device_path(device: &[u8]) -> (r: Vec<u8>)
    ensures
        r@ == normalized_device(device@),
{
    let pre: [u8; 5] = [47, 100, 101, 118, 47];
    proof {
        assert(pre@ =~= dev_prefix());
    }
    let mut out: Vec<u8> = Vec::new();
    if !starts_with_bytes(device, pre.as_slice()) {
        push_bytes(&mut out, pre.as_slice());
    }
    push_bytes(&mut out, device);
    assert(out@ =~= normalized_device(device@));
    out
}

/// SD-card classification: a pure path-substring match on `mmcblk`.
pub open spec fn spec_is_sd_card(device: Seq<u8>) -> bool {
    contains_seq(device, sd_pattern())
}

/// Classify a device as an SD card by its path alone.
pub fn is_sd_card_device(device: &[u8]) -> (r: bool)
    ensures
        r == spec_is_sd_card(device@),
{
    let pat: [u8; 6] = [109, 109, 99, 98, 108, 107];
    proof {
        assert(pat@ =~= sd_pattern());
    }
    contains_bytes(device, pat.as_slice())
}

/// The existing root partition's path by the fixed naming convention:
/// partition 2, spelled `<dev>p2` on SD cards and `<dev>2` otherwise.
pub open spec fn spec_root_partition(device: Seq<u8>, is_sd_card: bool) -> Seq<u8> {
    if is_sd_card {
        device + seq![112u8, 50u8]
    } else {
        device + seq![50u8]
    }
}

/// Derive the existing root partition's device path.
pub fn root_partition_path(device: &[u8], is_sd_card: bool) -> (r: Vec<u8>)
    ensures
        r@ == spec_root_partition(device@, is_sd_card),
{
    let mut out: Vec<u8> = Vec::new();
    push_bytes(&mut out, device);
    if is_sd_card {
        out.push(112);  // 'p'
    }
    out.push(50);  // '2'
    assert(out@ =~= spec_root_partition(device@, is_sd_card));
    out
}

/// The device path of partition `part_num`: devices named `mmcblk...` or
/// `nvme...` take a `p` between device and partition number.
pub open spec fn spec_partition_device(device: Seq<u8>, part_num: u64) -> Seq<u8> {
    if contains_seq(device, sd_pattern()) || contains_seq(device, nvme_pattern()) {
        device + seq![112u8] + dec_digits(part_num as int)
    } else {
        device + dec_digits(part_num as int)
    }
}

/// Derive the device path of a numbered partition.
pub fn partition_device_path(device: &[u8], part_num: u64) -> (r: Vec<u8>)
    ensures
        r@ == spec_partition_device(device@, part_num),
{
    let sd: [u8; 6] = [109, 109, 99, 98, 108, 107];
    let nv: [u8; 4] = [110, 118, 109, 101];
    proof {
        assert(sd@ =~= sd_pattern());
        assert(nv@ =~= nvme_pattern());
    }
    let mut out: Vec<u8> = Vec::new();
    push_bytes(&mut out, device);
    if contains_bytes(device, sd.as_slice()) || contains_bytes(device, nv.as_slice()) {
        out.push(112);  // 'p'
    }
    crate::sizes::push_dec_digits(part_num, &mut out);
    assert(out@ =~= spec_partition_device(device@, part_num));
    out
}

/// Number of consecutive non-colon bytes of `s` starting at `i`,
/// looking no further than `e`.
pub open spec fn non_colon_span(s: Seq<u8>, i: int, e: int) -> nat
    decreases e - i,
{
    if 0 <= i < e <= s.len() && s[i] != 58 {
        1 + non_colon_span(s, i + 1, e)
    } else {
        0
    }
}

/// Number of consecutive non-newline bytes of `s` starting at `i`,
/// looking no further than `e`.
pub open spec fn non_nl_span(s: Seq<u8>, i: int, e: int) -> nat
    decreases e - i,
{
    if 0 <= i < e <= s.len() && s[i] != 10 {
        1 + non_nl_span(s, i + 1, e)
    } else {
        0
    }
}

/// Number of consecutive non-whitespace bytes of `s` starting at `i`,
/// looking no further than `e`.
pub open spec fn non_ws_span(s: Seq<u8>, i: int, e: int) -> nat
    decreases e - i,
{
    if 0 <= i < e <= s.len() && !is_ascii_space(s[i]) {
        1 + non_ws_span(s, i + 1, e)
    } else {
        0
    }
}

proof fn lemma_non_colon_span_of_run(s: Seq<u8>, start: int, end: int, e: int)
    requires
        0 <= start <= end <= e <= s.len(),
        forall|k: int| start <= k < end ==> s[k] != 58,
        end == e || s[end] == 58,
    ensures
        non_colon_span(s, start, e) == end - start,
    decreases end - start,
{
    if start < end {
        lemma_non_colon_span_of_run(s, start + 1, end, e);
    }
}

proof fn lemma_non_nl_span_of_run(s: Seq<u8>, start: int, end: int, e: int)
    requires
        0 <= start <= end <= e <= s.len(),
        forall|k: int| start <= k < end ==> s[k] != 10,
        end == e || s[end] == 10,
    ensures
        non_nl_span(s, start, e) == end - start,
    decreases end - start,
{
    if start < end {
        lemma_non_nl_span_of_run(s, start + 1, end, e);
    }
}

proof fn lemma_non_ws_span_of_run(s: Seq<u8>, start: int, end: int, e: int)
    requires
        0 <= start <= end <= e <= s.len(),
        forall|k: int| start <= k < end ==> !is_ascii_space(s[k]),
        end == e || is_ascii_space(s[end]),
    ensures
        non_ws_span(s, start, e) == end - start,
    decreases end - start,
{
    if start < end {
        lemma_non_ws_span_of_run(s, start + 1, end, e);
    }
}

/// Advance past consecutive non-colon bytes, looking no further than `end`.
fn scan_non_colon(s: &[u8], from: usize, end: usize) -> (r: usize)
    requires
        from <= end <= s@.len(),
    ensures
        from <= r <= end,
        r == from + non_colon_span(s@, from as int, end as int),
{
    let mut i = from;
    while i < end && s[i] != 58
        invariant
            from <= i <= end <= s@.len(),
            forall|k: int| from <= k < i ==> s@[k] != 58,
        decreases end - i,
    {
        i = i + 1;
    }
    proof {
        lemma_non_colon_span_of_run(s@, from as int, i as int, end as int);
    }
    i
}

/// Advance past consecutive non-newline bytes, looking no further than
/// `end`: in effect, find the end of the current line.
fn scan_non_nl(s: &[u8], from: usize, end: usize) -> (r: usize)
    requires
        from <= end <= s@.len(),
    ensures
        from <= r <= end,
        r == from + non_nl_span(s@, from as int, end as int),
{
    let mut i = from;
    while i < end && s[i] != 10
        invariant
            from <= i <= end <= s@.len(),
            forall|k: int| from <= k < i ==> s@[k] != 10,
        decreases end - i,
    {
        i = i + 1;
    }
    proof {
        lemma_non_nl_span_of_run(s@, from as int, i as int, end as int);
    }
    i
}

/// Advance past consecutive non-whitespace bytes, looking no further than
/// `end`: in effect, find the end of the current field.
fn scan_non_ws(s: &[u8], from: usize, end: usize) -> (r: usize)
    requires
        from <= end <= s@.len(),
    ensures
        from <= r <= end,
        r == from + non_ws_span(s@, from as int, end as int),
{
    let mut i = from;
    while i < end && !(s[i] == 32 || (9 <= s[i] && s[i] <= 13))
        invariant
            from <= i <= end <= s@.len(),
            forall|k: int| from <= k < i ==> !is_ascii_space(s@[k]),
        decreases end - i,
    {
        i = i + 1;
    }
    proof {
        lemma_non_ws_span_of_run(s@, from as int, i as int, end as int);
    }
    i
}

/// Position just past the last byte of the line that starts at `i`.
pub open spec fn line_end(s: Seq<u8>, i: int) -> int {
    i + non_nl_span(s, i, s.len() as int)
}

/// The report prefix `Disk /` that introduces the size line.
pub open spec fn disk_report_prefix() -> Seq<u8> {
    seq![68u8, 105u8, 115u8, 107u8, 32u8, 47u8]
}

/// The digit range of the disk size, if the pattern
/// `Disk /<path>: <digits>B` matches at position `i`: after the prefix, a
/// non-empty run up to the first colon, then whitespace, then at least
/// one digit, then the byte marker.
pub open spec fn disk_size_at(s: Seq<u8>, i: int) -> Option<(int, int)> {
    let n = s.len() as int;
    if i + 6 <= n && s.subrange(i, i + 6) == disk_report_prefix() {
        let q = i + 6;
        let c0 = q + non_colon_span(s, q, n) as int;
        if c0 == q || c0 >= n {
            None
        } else {
            let w = c0 + 1 + ws_span(s, c0 + 1, n) as int;
            let d_end = w + digit_span(s, w, n) as int;
            if d_end == w {
                None
            } else if d_end < n && s[d_end] == 66 {  // 'B'
                Some((w, d_end))
            } else {
                None
            }
        }
    } else {
        None
    }
}

/// The digit range of the leftmost disk-size match at or after `i`.
pub open spec fn disk_size_from(s: Seq<u8>, i: int) -> Option<(int, int)>
    decreases s.len() - i,
{
    if i + 6 > s.len() {
        None
    } else if disk_size_at(s, i) is Some {
        disk_size_at(s, i)
    } else {
        disk_size_from(s, i + 1)
    }
}

/// The disk's byte size as the report states it, if the expected pattern
/// occurs anywhere in the report.
pub open spec fn disk_size_value(s: Seq<u8>) -> Option<int> {
    match disk_size_from(s, 0) {
        Some((w, d_end)) => Some(digits_val(s, w, d_end)),
        None => None,
    }
}

/// Extract the disk's total byte size from the partitioning tool's
/// byte-unit report, or fail with `ToolOutputError` when the expected
/// size line is absent or states a size too large to be a real disk.
pub fn parse_disk_size(report: &[u8]) -> (r: Result<u64, Error>)
    ensures
        match disk_size_value(report@) {
            Some(v) => 0 <= v && if v <= MAX_DISK_BYTES {
                r == Ok::<u64, Error>(v as u64)
            } else {
                r == Err::<u64, Error>(Error::ToolOutputError)
            },
            None => r == Err::<u64, Error>(Error::ToolOutputError),
        },
{
    let n = report.len();
    let pre: [u8; 6] = [68, 105, 115, 107, 32, 47];
    proof {
        assert(pre@ =~= disk_report_prefix());
    }
    if n < 6 {
        return Err(Error::ToolOutputError);
    }
    let mut i: usize = 0;
    while i <= n - 6
        invariant
            6 <= n == report@.len(),
            i <= n - 5,
            pre@ == disk_report_prefix(),
            disk_size_from(report@, 0) == disk_size_from(report@, i as int),
        decreases n - i,
    {
        if bytes_eq_at(report, i, pre.as_slice()) {
            let q = i + 6;
            let c0 = scan_non_colon(report, q, n);
            if c0 > q && c0 < n {
                let w = scan_ws(report, c0 + 1, n);
                let d_end = scan_digits(report, w, n);
                if d_end > w && d_end < n && report[d_end] == 66 {
                    proof {
                        assert(disk_size_at(report@, i as int) == Some((w as int, d_end as int)));
                        crate::sizes::lemma_digits_val_nonneg(report@, w as int, d_end as int);
                    }
                    let (v, over) = crate::sizes::digits_value_capped(report, w, d_end, MAX_DISK_BYTES);
                    if over {
                        return Err(Error::ToolOutputError);
                    }
                    return Ok(v);
                }
            }
            proof {
                assert(disk_size_at(report@, i as int) is None);
            }
        }
        i = i + 1;
    }
    Err(Error::ToolOutputError)
}

/// The digit range of the start sector on the line `[i, e)`, if the line
/// reads `<ws>* <target> <ws>+ <digits>s ...`, with the partition number
/// written exactly as its decimal digits.
pub open spec fn line_part_start(s: Seq<u8>, i: int, e: int, target: u64) -> Option<(int, int)> {
    let a = i + ws_span(s, i, e) as int;
    let b = a + digit_span(s, a, e) as int;
    if b == a || s.subrange(a, b) != dec_digits(target as int) {
        None
    } else {
        let c = b + ws_span(s, b, e) as int;
        if c == b {
            None
        } else {
            let d_end = c + digit_span(s, c, e) as int;
            if d_end == c {
                None
            } else if d_end < e && s[d_end] == 115 {  // 's'
                Some((c, d_end))
            } else {
                None
            }
        }
    }
}

/// The digit range of the start sector on the first matching line at or
/// after position `i` (a line start).
pub open spec fn part_start_from(s: Seq<u8>, i: int, target: u64) -> Option<(int, int)>
    decreases s.len() - i,
{
    if !(0 <= i <= s.len()) {
        None
    } else {
        let e = line_end(s, i);
        match line_part_start(s, i, e, target) {
            Some(range) => Some(range),
            None => if e < s.len() {
                part_start_from(s, e + 1, target)
            } else {
                None
            },
        }
    }
}

/// The start sector of partition `target` as the sector-unit report
/// states it, if some line matches.
pub open spec fn part_start_value(s: Seq<u8>, target: u64) -> Option<int> {
    match part_start_from(s, 0, target) {
        Some((c, d_end)) => Some(digits_val(s, c, d_end)),
        None => None,
    }
}

/// Extract the start sector of the numbered partition from the
/// partitioning tool's sector-unit report, or fail with
/// `ToolOutputError` when no table line for that partition is found or
/// its start sector does not fit in 64 bits.
pub fn parse_partition_start(report: &[u8], target: u64) -> (r: Result<u64, Error>)
    ensures
        match part_start_value(report@, target) {
            Some(v) => 0 <= v && if v <= u64::MAX {
                r == Ok::<u64, Error>(v as u64)
            } else {
                r == Err::<u64, Error>(Error::ToolOutputError)
            },
            None => r == Err::<u64, Error>(Error::ToolOutputError),
        },
{
    let n = report.len();
    let mut target_digits: Vec<u8> = Vec::new();
    crate::sizes::push_dec_digits(target, &mut target_digits);
    assert(target_digits@ =~= dec_digits(target as int));

    let mut i: usize = 0;
    while i <= n
        invariant
            i <= n + 1,
            n == report@.len(),
            target_digits@ == dec_digits(target as int),
            part_start_from(report@, 0, target) == part_start_from(report@, i as int, target),
        decreases n + 1 - i,
    {
        let e = scan_non_nl(report, i, n);
        // Leading whitespace, then the partition number itself.
        let a = scan_ws(report, i, e);
        let b = scan_digits(report, a, e);
        let num_matches = b > a && b - a == target_digits.len() && bytes_eq_at(
            report,
            a,
            target_digits.as_slice(),
        );
        if num_matches {
            let c = scan_ws(report, b, e);
            if c > b {
                let d_end = scan_digits(report, c, e);
                if d_end > c && d_end < e && report[d_end] == 115 {
                    proof {
                        assert(report@.subrange(a as int, b as int) == dec_digits(target as int));
                        assert(line_part_start(report@, i as int, e as int, target)
                            == Some((c as int, d_end as int)));
                    }
                    proof {
                        crate::sizes::lemma_digits_val_nonneg(report@, c as int, d_end as int);
                    }
                    let (v, over) = crate::sizes::digits_value_capped(report, c, d_end, u64::MAX);
                    if over {
                        return Err(Error::ToolOutputError);
                    }
                    return Ok(v);
                }
            }
        }
        proof {
            if num_matches {
            } else if b > a {
                assert(report@.subrange(a as int, b as int) != dec_digits(target as int));
            }
            assert(line_part_start(report@, i as int, e as int, target) is None);
        }
        if e >= n {
            proof {
                assert(part_start_from(report@, i as int, target) is None);
            }
            return Err(Error::ToolOutputError);
        }
        i = e + 1;
    }
    Err(Error::ToolOutputError)
}

/// The leading partition number of the line `[i, e)`, if the line reads
/// `<ws>* <digits> <ws> ...` and the number fits the tool's 32-bit
/// partition numbering; any other line contributes nothing.
pub open spec fn line_lead_num(s: Seq<u8>, i: int, e: int) -> Option<int> {
    let a = i + ws_span(s, i, e) as int;
    let b = a + digit_span(s, a, e) as int;
    if b == a {
        None
    } else if !(b < e && is_ascii_space(s[b])) {
        None
    } else {
        let v = digits_val(s, a, b);
        if v <= u32::MAX {
            Some(v)
        } else {
            None
        }
    }
}

/// The largest leading partition number on any line at or after `i`.
pub open spec fn max_part_num_from(s: Seq<u8>, i: int) -> int
    decreases s.len() - i,
{
    if !(0 <= i <= s.len()) {
        0
    } else {
        let e = line_end(s, i);
        let here = match line_lead_num(s, i, e) {
            Some(v) => v,
            None => 0,
        };
        let rest = if e < s.len() {
            max_part_num_from(s, e + 1)
        } else {
            0
        };
        if here >= rest {
            here
        } else {
            rest
        }
    }
}

proof fn lemma_max_part_num_bounds(s: Seq<u8>, i: int)
    ensures
        0 <= max_part_num_from(s, i) <= u32::MAX,
    decreases s.len() - i,
{
    if 0 <= i <= s.len() {
        let e = line_end(s, i);
        let a = i + ws_span(s, i, e) as int;
        crate::sizes::lemma_digit_span_digits(s, a, e);
        let b = a + digit_span(s, a, e) as int;
        crate::sizes::lemma_digits_val_nonneg(s, a, b);
        if e < s.len() {
            lemma_max_part_num_bounds(s, e + 1);
        }
    }
}

/// The number the next created partition will take: one past the largest
/// partition number in the tool's table report.
pub fn next_partition_number(report: &[u8]) -> (r: u64)
    ensures
        r == max_part_num_from(report@, 0) + 1,
        1 <= r <= 0x1_0000_0000,
{
    let n = report.len();
    let mut best: u64 = 0;
    let mut i: usize = 0;
    proof {
        lemma_max_part_num_bounds(report@, 0);
    }
    while i <= n
        invariant
            i <= n + 1,
            n == report@.len(),
            best <= u32::MAX,
            max_part_num_from(report@, 0) == if best >= max_part_num_from(report@, i as int) {
                best as int
            } else {
                max_part_num_from(report@, i as int)
            },
        decreases n + 1 - i,
    {
        let e = scan_non_nl(report, i, n);
        let a = scan_ws(report, i, e);
        let b = scan_digits(report, a, e);
        proof {
            lemma_max_part_num_bounds(report@, e + 1);
            crate::sizes::lemma_digits_val_nonneg(report@, a as int, b as int);
        }
        if b > a && b < e && (report[b] == 32 || (9 <= report[b] && report[b] <= 13)) {
            let (v, over) = crate::sizes::digits_value_capped(report, a, b, 0xffff_ffff);
            if !over && v > best {
                best = v;
            }
        }
        if e >= n {
            return best + 1;
        }
        i = e + 1;
    }
    best + 1
}

/// Whether the mount-table line `[i, e)` shows the target device (or a
/// partition of it) mounted at `/`: the second whitespace-separated
/// field is exactly `/`, and the first field and the device path are
/// prefix-related in either direction.
pub open spec fn line_is_active_root(s: Seq<u8>, i: int, e: int, dev: Seq<u8>) -> bool {
    let f0s = i + ws_span(s, i, e) as int;
    let f0e = f0s + non_ws_span(s, f0s, e) as int;
    let f1s = f0e + ws_span(s, f0e, e) as int;
    let f1e = f1s + non_ws_span(s, f1s, e) as int;
    &&& f0e > f0s
    &&& f1e == f1s + 1
    &&& s[f1s] == 47  // '/'
    &&& (is_prefix(dev, s.subrange(f0s, f0e)) || is_prefix(s.subrange(f0s, f0e), dev))
}

/// Whether any mount-table line at or after `i` shows the device as the
/// active root.
pub open spec fn mounts_active_from(s: Seq<u8>, i: int, dev: Seq<u8>) -> bool
    decreases s.len() - i,
{
    if !(0 <= i <= s.len()) {
        false
    } else {
        let e = line_end(s, i);
        line_is_active_root(s, i, e, dev) || (e < s.len() && mounts_active_from(s, e + 1, dev))
    }
}

/// Whether the bytes `s[si..si+len]` and `t[ti..ti+len]` agree.
fn eq_ranges(s: &[u8], si: usize, t: &[u8], ti: usize, len: usize) -> (r: bool)
    requires
        si + len <= s@.len(),
        ti + len <= t@.len(),
    ensures
        r <==> s@.subrange(si as int, si + len) == t@.subrange(ti as int, ti + len),
{
    let ns = s.len();
    let nt = t.len();
    let mut k: usize = 0;
    while k < len
        invariant
            k <= len,
            si + len <= ns == s@.len(),
            ti + len <= nt == t@.len(),
            forall|j: int| 0 <= j < k ==> #[trigger] s@[si + j] == t@[ti + j],
        decreases len - k,
    {
        if s[si + k] != t[ti + k] {
            assert(s@.subrange(si as int, si + len)[k as int]
                != t@.subrange(ti as int, ti + len)[k as int]);
            return false;
        }
        k = k + 1;
    }
    assert forall|j: int| 0 <= j < len implies #[trigger] s@.subrange(si as int, si + len)[j]
        == t@.subrange(ti as int, ti + len)[j] by {
        assert(s@[si + j] == t@[ti + j]);
    }
    assert(s@.subrange(si as int, si + len) =~= t@.subrange(ti as int, ti + len));
    true
}

/// Whether the field `s[i..j]` and the device path `d` are
/// prefix-related in either direction.
fn range_prefix_related(s: &[u8], i: usize, j: usize, d: &[u8]) -> (r: bool)
    requires
        i <= j <= s@.len(),
    ensures
        r == (is_prefix(d@, s@.subrange(i as int, j as int)) || is_prefix(
            s@.subrange(i as int, j as int),
            d@,
        )),
{
    let flen = j - i;
    if d.len() <= flen {
        let eq = eq_ranges(s, i, d, 0, d.len());
        proof {
            assert(d@.subrange(0, d@.len() as int) =~= d@);
            assert(s@.subrange(i as int, i + d@.len()) =~= s@.subrange(i as int, j as int)
                .subrange(0, d@.len() as int));
            if d@.len() == flen {
                assert(s@.subrange(i as int, i + d@.len()) =~= s@.subrange(i as int, j as int));
            }
        }
        eq
    } else {
        let eq = eq_ranges(d, 0, s, i, flen);
        proof {
            assert(s@.subrange(i as int, i + flen) =~= s@.subrange(i as int, j as int));
        }
        eq
    }
}

/// Decide from the live mount table whether the device is (or contains)
/// the currently mounted root filesystem.
pub fn is_active_root_in_mounts(mounts: &[u8], device: &[u8]) -> (r: bool)
    ensures
        r == mounts_active_from(mounts@, 0, device@),
{
    let n = mounts.len();
    let mut i: usize = 0;
    while i <= n
        invariant
            i <= n + 1,
            n == mounts@.len(),
            mounts_active_from(mounts@, 0, device@) == mounts_active_from(
                mounts@,
                i as int,
                device@,
            ),
        decreases n + 1 - i,
    {
        let e = scan_non_nl(mounts, i, n);
        let f0s = scan_ws(mounts, i, e);
        let f0e = scan_non_ws(mounts, f0s, e);
        let f1s = scan_ws(mounts, f0e, e);
        let f1e = scan_non_ws(mounts, f1s, e);
        if f0e > f0s && f1e - f1s == 1 && mounts[f1s] == 47 && range_prefix_related(
            mounts,
            f0s,
            f0e,
            device,
        ) {
            proof {
                assert(line_is_active_root(mounts@, i as int, e as int, device@));
            }
            return true;
        }
        proof {
            assert(!line_is_active_root(mounts@, i as int, e as int, device@));
        }
        if e >= n {
            return false;
        }
        i = e + 1;
    }
    false
}

/// Assemble the disk geometry snapshot from the raw device token and the
/// partitioning tool's byte-unit report: normalize the path, classify
/// the media, read the total size out of the report and derive the root
/// partition's path.  Fails with `ToolOutputError` when the report shows
/// no usable size line.  The caller remains responsible for checking
/// that the device and the root partition actually exist.
pub fn build_disk_geometry(device_raw: &[u8], parted_report: &[u8]) -> (r: Result<
    DiskGeometry,
    Error,
>)
    ensures
        match r {
            Ok(g) => {
                &&& g.device@ == normalized_device(device_raw@)
                &&& g.is_sd_card == spec_is_sd_card(normalized_device(device_raw@))
                &&& g.root_partition@ == spec_root_partition(
                    normalized_device(device_raw@),
                    g.is_sd_card,
                )
                &&& disk_size_value(parted_report@) == Some(g.size_bytes as int)
                &&& g.wf()
            },
            Err(e) => {
                &&& e == Error::ToolOutputError
                &&& match disk_size_value(parted_report@) {
                    Some(v) => v > MAX_DISK_BYTES,
                    None => true,
                }
            },
        },
{
    let device = normalize_device_path(device_raw);
    let is_sd_card = is_sd_card_device(device.as_slice());
    let size_bytes = match parse_disk_size(parted_report) {
        Ok(v) => v,
        Err(e) => {
            return Err(e);
        },
    };
    let size_sectors = size_bytes / SECTOR_SIZE;
    let root_partition = root_partition_path(device.as_slice(), is_sd_card);
    Ok(DiskGeometry { device, size_bytes, size_sectors, is_sd_card, root_partition })
}

} // verus!
