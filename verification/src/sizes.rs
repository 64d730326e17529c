//! Human size strings and the root-size policy.
//!
//! A size string has the form `<number>[.<fraction>]<unit>?`,
//! case-insensitive, with optional whitespace around the number and an
//! optional trailing `B`; the unit is one of `K`, `M`, `G`, `T`, meaning
//! binary (1024-based) multiples.  The byte count is the number times the
//! multiplier, truncated to a whole number of bytes and saturated at
//! `u64::MAX`.

use vstd::prelude::*;

use crate::errors::Error;

verus! {

pub const KIB: u64 = 1024;

pub const MIB: u64 = 1024 * 1024;

pub const GIB: u64 = 1024 * 1024 * 1024;

pub const TIB: u64 = 1024 * 1024 * 1024 * 1024;

/// Inclusive policy bounds for the root partition size.
pub const MIN_ROOT_SIZE_GB: u64 = 8;

pub const MAX_ROOT_SIZE_GB: u64 = 64;

pub open spec fn is_ascii_digit(b: u8) -> bool {
    48 <= b <= 57
}

/// ASCII whitespace: tab, line feed, vertical tab, form feed, carriage
/// return, space.
pub open spec fn is_ascii_space(b: u8) -> bool {
    b == 32 || (9 <= b <= 13)
}

/// The binary multiplier a unit letter stands for, case-insensitive.
pub open spec fn unit_multiplier(b: u8) -> Option<u64> {
    if b == 75 || b == 107 {  // K k
        Some(KIB)
    } else if b == 77 || b == 109 {  // M m
        Some(MIB)
    } else if b == 71 || b == 103 {  // G g
        Some(GIB)
    } else if b == 84 || b == 116 {  // T t
        Some(TIB)
    } else {
        None
    }
}

/// The optional trailing byte marker, case-insensitive.
pub open spec fn is_b_byte(b: u8) -> bool {
    b == 66 || b == 98  // B b
}

/// Number of consecutive whitespace bytes of `s` starting at `i`,
/// looking no further than `e`.
pub open spec fn ws_span(s: Seq<u8>, i: int, e: int) -> nat
    decreases e - i,
{
    if 0 <= i < e <= s.len() && is_ascii_space(s[i]) {
        1 + ws_span(s, i + 1, e)
    } else {
        0
    }
}

/// Number of consecutive digit bytes of `s` starting at `i`,
/// looking no further than `e`.
pub open spec fn digit_span(s: Seq<u8>, i: int, e: int) -> nat
    decreases e - i,
{
    if 0 <= i < e <= s.len() && is_ascii_digit(s[i]) {
        1 + digit_span(s, i + 1, e)
    } else {
        0
    }
}

/// Numeric value of the decimal digits `s[i..j]`.
pub open spec fn digits_val(s: Seq<u8>, i: int, j: int) -> int
    decreases j - i,
{
    if i < j {
        digits_val(s, i, j - 1) * 10 + (s[j - 1] - 48)
    } else {
        0
    }
}

/// Contribution of the fraction digits `s[i..j]` to a byte count with
/// multiplier `m`: exactly `floor(m * 0.d1 d2 ... dk)`, computed as a
/// right-to-left Horner scheme where every division truncates.
pub open spec fn frac_val(s: Seq<u8>, i: int, j: int, m: u64) -> int
    decreases j - i,
{
    if i < j {
        (m * (s[i] - 48) + frac_val(s, i + 1, j, m)) / 10
    } else {
        0
    }
}

/// A byte count clamped to the largest representable value.
pub open spec fn saturate(v: int) -> u64 {
    if v > u64::MAX {
        u64::MAX
    } else {
        v as u64
    }
}

/// The meaning of a size string: `None` for malformed input, otherwise
/// the truncated, saturated byte count.
pub open spec fn parse_size_spec(s: Seq<u8>) -> Option<u64> {
    let n = s.len() as int;
    let i0 = ws_span(s, 0, n) as int;  // leading whitespace
    let i1 = i0 + digit_span(s, i0, n);  // integer digits
    if i1 == i0 {
        None
    } else {
        let fr = if i1 < n && s[i1] == 46 {  // '.'
            let f0 = i1 + 1;
            let f1 = f0 + digit_span(s, f0, n) as int;
            if f1 == f0 {
                None
            } else {
                Some((f0, f1))
            }
        } else {
            Some((i1, i1))
        };
        match fr {
            None => None,
            Some((fs, fe)) => {
                let j = fe + ws_span(s, fe, n) as int;  // gap before the unit
                let (m, after_unit) = if j < n {
                    match unit_multiplier(s[j]) {
                        Some(m) => (m, j + 1),
                        None => (1u64, j),
                    }
                } else {
                    (1u64, j)
                };
                let end_pos = if after_unit < n && is_b_byte(s[after_unit]) {
                    after_unit + 1
                } else {
                    after_unit
                };
                if end_pos + ws_span(s, end_pos, n) != n {
                    None
                } else {
                    Some(saturate(digits_val(s, i0, i1) * m + frac_val(s, fs, fe, m)))
                }
            },
        }
    }
}

/// A malformed size string is the exact case in which parsing fails.
pub open spec fn parse_result(o: Option<u64>) -> Result<u64, Error> {
    match o {
        Some(v) => Ok(v),
        None => Err(Error::ParseError),
    }
}

pub proof fn lemma_ws_span_of_run(s: Seq<u8>, start: int, end: int, e: int)
    requires
        0 <= start <= end <= e <= s.len(),
        forall|k: int| start <= k < end ==> is_ascii_space(s[k]),
        end == e || !is_ascii_space(s[end]),
    ensures
        ws_span(s, start, e) == end - start,
    decreases end - start,
{
    if start < end {
        lemma_ws_span_of_run(s, start + 1, end, e);
    }
}

pub proof fn lemma_digit_span_of_run(s: Seq<u8>, start: int, end: int, e: int)
    requires
        0 <= start <= end <= e <= s.len(),
        forall|k: int| start <= k < end ==> is_ascii_digit(s[k]),
        end == e || !is_ascii_digit(s[end]),
    ensures
        digit_span(s, start, e) == end - start,
    decreases end - start,
{
    if start < end {
        lemma_digit_span_of_run(s, start + 1, end, e);
    }
}

/// Every byte inside a digit span is a digit.
pub proof fn lemma_digit_span_digits(s: Seq<u8>, i: int, e: int)
    ensures
        forall|k: int| i <= k < i + digit_span(s, i, e) ==> is_ascii_digit(s[k]),
    decreases e - i,
{
    if 0 <= i < e <= s.len() && is_ascii_digit(s[i]) {
        lemma_digit_span_digits(s, i + 1, e);
    }
}

pub proof fn lemma_digits_val_nonneg(s: Seq<u8>, i: int, j: int)
    requires
        forall|k: int| i <= k < j ==> is_ascii_digit(s[k]),
    ensures
        digits_val(s, i, j) >= 0,
    decreases j - i,
{
    if i < j {
        lemma_digits_val_nonneg(s, i, j - 1);
    }
}

proof fn lemma_frac_val_bounds(s: Seq<u8>, i: int, j: int, m: u64)
    requires
        forall|k: int| i <= k < j ==> is_ascii_digit(s[k]),
    ensures
        0 <= frac_val(s, i, j, m) <= m,
    decreases j - i,
{
    if i < j {
        lemma_frac_val_bounds(s, i + 1, j, m);
        let g = frac_val(s, i + 1, j, m);
        let d = s[i] - 48;
        assert(m * d <= m * 9) by (nonlinear_arith)
            requires 0 <= d <= 9;
        assert((m * d + g) / 10 <= m);
    }
}

/// Advance past consecutive whitespace bytes, looking no further than `end`.
pub fn scan_ws(s: &[u8], from: usize, end: usize) -> (r: usize)
    requires
        from <= end <= s@.len(),
    ensures
        from <= r <= end,
        r == from + ws_span(s@, from as int, end as int),
{
    let mut i = from;
    while i < end && (s[i] == 32 || (9 <= s[i] && s[i] <= 13))
        invariant
            from <= i <= end <= s@.len(),
            forall|k: int| from <= k < i ==> is_ascii_space(s@[k]),
        decreases end - i,
    {
        i = i + 1;
    }
    proof {
        lemma_ws_span_of_run(s@, from as int, i as int, end as int);
    }
    i
}

/// Advance past consecutive decimal digit bytes, looking no further than
/// `end`.
pub fn scan_digits(s: &[u8], from: usize, end: usize) -> (r: usize)
    requires
        from <= end <= s@.len(),
    ensures
        from <= r <= end,
        r == from + digit_span(s@, from as int, end as int),
        forall|k: int| from <= k < r ==> is_ascii_digit(s@[k]),
{
    let mut i = from;
    while i < end && 48 <= s[i] && s[i] <= 57
        invariant
            from <= i <= end <= s@.len(),
            forall|k: int| from <= k < i ==> is_ascii_digit(s@[k]),
        decreases end - i,
    {
        i = i + 1;
    }
    proof {
        lemma_digit_span_of_run(s@, from as int, i as int, end as int);
    }
    i
}

/// Value of the digit run `s[i..j]`, reported exactly when it does not
/// exceed `cap`; the second component reports that it does.
pub fn digits_value_capped(s: &[u8], i: usize, j: usize, cap: u64) -> (r: (u64, bool))
    requires
        i <= j <= s@.len(),
        forall|k: int| i <= k < j ==> is_ascii_digit(s@[k]),
    ensures
        !r.1 ==> r.0 == digits_val(s@, i as int, j as int) && r.0 <= cap,
        r.1 ==> digits_val(s@, i as int, j as int) > cap,
{
    let mut acc: u64 = 0;
    let mut over = false;
    let mut idx = i;
    while idx < j
        invariant
            i <= idx <= j <= s@.len(),
            forall|k: int| i <= k < j ==> is_ascii_digit(s@[k]),
            !over ==> acc == digits_val(s@, i as int, idx as int) && acc <= cap,
            over ==> digits_val(s@, i as int, idx as int) > cap,
        decreases j - idx,
    {
        let d = s[idx] - 48;
        proof {
            lemma_digits_val_nonneg(s@, i as int, idx as int);
        }
        if !over {
            if d as u64 > cap || acc > (cap - d as u64) / 10 {
                over = true;
            } else {
                acc = acc * 10 + d as u64;
            }
        }
        idx = idx + 1;
    }
    (acc, over)
}

/// Contribution of the fraction digits `s[i..j]` with multiplier `m`,
/// evaluated exactly by right-to-left Horner division.
fn frac_value(s: &[u8], i: usize, j: usize, m: u64) -> (r: u64)
    requires
        i <= j <= s@.len(),
        m <= TIB,
        forall|k: int| i <= k < j ==> is_ascii_digit(s@[k]),
    ensures
        r == frac_val(s@, i as int, j as int, m),
        r <= m,
{
    let mut g: u64 = 0;
    let mut idx = j;
    while idx > i
        invariant
            i <= idx <= j <= s@.len(),
            m <= TIB,
            forall|k: int| i <= k < j ==> is_ascii_digit(s@[k]),
            g == frac_val(s@, idx as int, j as int, m),
            g <= m,
        decreases idx,
    {
        idx = idx - 1;
        let d = s[idx] - 48;
        proof {
            lemma_frac_val_bounds(s@, idx as int, j as int, m);
            assert(m * (d as u64) <= m * 9) by (nonlinear_arith)
                requires 0 <= d <= 9;
        }
        g = (m * d as u64 + g) / 10;
    }
    g
}

/// The binary multiplier a unit byte stands for, case-insensitive.
fn multiplier_of(b: u8) -> (r: Option<u64>)
    ensures
        r == unit_multiplier(b),
{
    if b == 75 || b == 107 {
        Some(KIB)
    } else if b == 77 || b == 109 {
        Some(MIB)
    } else if b == 71 || b == 103 {
        Some(GIB)
    } else if b == 84 || b == 116 {
        Some(TIB)
    } else {
        None
    }
}

/// Parse a human size string into a byte count, or fail with
/// `ParseError` on malformed input.
pub fn parse_size(s: &[u8]) -> (r: Result<u64, Error>)
    ensures
        r == parse_result(parse_size_spec(s@)),
{
    let n = s.len();
    let i0 = scan_ws(s, 0, n);
    let i1 = scan_digits(s, i0, n);
    if i1 == i0 {
        return Err(Error::ParseError);
    }

    // Optional fraction: a dot must be followed by at least one digit.
    let has_dot = i1 < n && s[i1] == 46;
    let (fs, fe) = if has_dot {
        let f0 = i1 + 1;
        let f1 = scan_digits(s, f0, n);
        if f1 == f0 {
            return Err(Error::ParseError);
        }
        (f0, f1)
    } else {
        (i1, i1)
    };

    // Optional unit letter after optional whitespace, then an optional
    // trailing byte marker, then only whitespace may remain.
    let j = scan_ws(s, fe, n);
    let (m, after_unit) = if j < n {
        match multiplier_of(s[j]) {
            Some(m) => (m, j + 1),
            None => (1u64, j),
        }
    } else {
        (1u64, j)
    };
    let end_pos = if after_unit < n && (s[after_unit] == 66 || s[after_unit] == 98) {
        after_unit + 1
    } else {
        after_unit
    };
    if scan_ws(s, end_pos, n) != n {
        return Err(Error::ParseError);
    }

    // number * multiplier, truncated, saturated at u64::MAX.
    let (ip, ip_over) = digits_value_capped(s, i0, i1, u64::MAX);
    let frac = frac_value(s, fs, fe, m);
    proof {
        lemma_digits_val_nonneg(s@, i0 as int, i1 as int);
        lemma_frac_val_bounds(s@, fs as int, fe as int, m);
    }
    if ip_over {
        proof {
            let ipv = digits_val(s@, i0 as int, i1 as int);
            assert(ipv * m >= ipv) by (nonlinear_arith)
                requires ipv > 0, m >= 1;
        }
        return Ok(u64::MAX);
    }
    let v = match ip.checked_mul(m) {
        Some(p) => match p.checked_add(frac) {
            Some(total) => total,
            None => u64::MAX,
        },
        None => {
            proof {
                let ipv = digits_val(s@, i0 as int, i1 as int);
                assert(ipv * m + frac_val(s@, fs as int, fe as int, m) > u64::MAX);
            }
            u64::MAX
        },
    };
    Ok(v)
}

/// Decimal digit bytes of a non-negative number, most significant first.
pub open spec fn dec_digits(v: int) -> Seq<u8>
    recommends
        v >= 0,
    decreases v,
{
    if v < 10 {
        seq![(48 + v) as u8]
    } else {
        dec_digits(v / 10).push((48 + v % 10) as u8)
    }
}

/// A byte count rendered with the largest binary unit that divides it
/// evenly, or as a plain byte number when no unit does.
pub open spec fn format_size_spec(n: u64) -> Seq<u8> {
    if n > 0 && n % TIB == 0 {
        dec_digits(n as int / TIB as int) + seq![84u8]  // T
    } else if n > 0 && n % GIB == 0 {
        dec_digits(n as int / GIB as int) + seq![71u8]  // G
    } else if n > 0 && n % MIB == 0 {
        dec_digits(n as int / MIB as int) + seq![77u8]  // M
    } else if n > 0 && n % KIB == 0 {
        dec_digits(n as int / KIB as int) + seq![75u8]  // K
    } else {
        dec_digits(n as int)
    }
}

/// Append the decimal digits of `n` to `out`.
pub fn push_dec_digits(n: u64, out: &mut Vec<u8>)
    ensures
        final(out)@ == old(out)@ + dec_digits(n as int),
    decreases n,
{
    if n < 10 {
        out.push((48 + n) as u8);
        assert(out@ =~= old(out)@ + dec_digits(n as int));
    } else {
        push_dec_digits(n / 10, out);
        out.push((48 + n % 10) as u8);
        assert(out@ =~= old(out)@ + dec_digits(n as int));
    }
}

/// Render a byte count as a human size string.
pub fn format_size(n: u64) -> (r: Vec<u8>)
    ensures
        r@ == format_size_spec(n),
{
    let mut out: Vec<u8> = Vec::new();
    if n > 0 && n % TIB == 0 {
        push_dec_digits(n / TIB, &mut out);
        out.push(84);
    } else if n > 0 && n % GIB == 0 {
        push_dec_digits(n / GIB, &mut out);
        out.push(71);
    } else if n > 0 && n % MIB == 0 {
        push_dec_digits(n / MIB, &mut out);
        out.push(77);
    } else if n > 0 && n % KIB == 0 {
        push_dec_digits(n / KIB, &mut out);
        out.push(75);
    } else {
        push_dec_digits(n, &mut out);
    }
    assert(out@ =~= format_size_spec(n));
    out
}

proof fn lemma_dec_digits_are_digits(v: int)
    requires
        v >= 0,
    ensures
        dec_digits(v).len() >= 1,
        forall|k: int| 0 <= k < dec_digits(v).len() ==> is_ascii_digit(#[trigger] dec_digits(v)[k]),
    decreases v,
{
    if v >= 10 {
        lemma_dec_digits_are_digits(v / 10);
    }
}

proof fn lemma_digits_val_of_prefix(s: Seq<u8>, t: Seq<u8>, i: int, j: int)
    requires
        0 <= i,
        j <= s.len(),
    ensures
        digits_val(s + t, i, j) == digits_val(s, i, j),
    decreases j - i,
{
    if i < j {
        lemma_digits_val_of_prefix(s, t, i, j - 1);
        assert((s + t)[j - 1] == s[j - 1]);
    }
}

proof fn lemma_digits_val_of_dec(v: int)
    requires
        v >= 0,
    ensures
        digits_val(dec_digits(v), 0, dec_digits(v).len() as int) == v,
    decreases v,
{
    if v < 10 {
        assert(digits_val(dec_digits(v), 0, 0) == 0);
        assert(digits_val(dec_digits(v), 0, 1) == v);
    } else {
        lemma_digits_val_of_dec(v / 10);
        let s = dec_digits(v);
        let p = dec_digits(v / 10);
        let l = s.len() as int;
        assert(s == p + seq![(48 + v % 10) as u8]);
        lemma_digits_val_of_prefix(p, seq![(48 + v % 10) as u8], 0, l - 1);
        assert(digits_val(s, 0, l) == digits_val(s, 0, l - 1) * 10 + (s[l - 1] - 48));
    }
}

/// `parse_size` applied to the digits of `v` followed by the unit letter
/// `u` yields `v` times the unit's multiplier.
proof fn lemma_parse_digits_with_unit(v: int, u: u8, m: u64)
    requires
        0 <= v,
        unit_multiplier(u) == Some(m),
        v * m <= u64::MAX,
    ensures
        parse_size_spec(dec_digits(v) + seq![u]) == Some((v * m) as u64),
{
    let s = dec_digits(v) + seq![u];
    let l = dec_digits(v).len() as int;
    lemma_dec_digits_are_digits(v);
    assert(forall|k: int| 0 <= k < l ==> is_ascii_digit(#[trigger] s[k]));
    assert(!is_ascii_space(s[0]));
    lemma_digit_span_of_run(s, 0, l, s.len() as int);
    assert(s[l] == u);
    lemma_digits_val_of_prefix(dec_digits(v), seq![u], 0, l);
    lemma_digits_val_of_dec(v);
    assert(digits_val(s, 0, l) == v);
    assert(ws_span(s, l, s.len() as int) == 0);
    assert(ws_span(s, l + 1, s.len() as int) == 0);
    assert(frac_val(s, l, l, m) == 0);
}

/// `parse_size` applied to plain digits yields their value in bytes.
proof fn lemma_parse_plain_digits(v: int)
    requires
        0 <= v <= u64::MAX,
    ensures
        parse_size_spec(dec_digits(v)) == Some(v as u64),
{
    let s = dec_digits(v);
    let l = s.len() as int;
    lemma_dec_digits_are_digits(v);
    assert(!is_ascii_space(s[0]));
    lemma_digit_span_of_run(s, 0, l, s.len() as int);
    lemma_digits_val_of_dec(v);
    assert(ws_span(s, l, s.len() as int) == 0);
    assert(frac_val(s, l, l, 1u64) == 0);
    assert(v * 1u64 == v);
}

/// Law: formatting a byte count and parsing the result gives the byte
/// count back, for every representable value.
pub proof fn lemma_format_parse_round_trip(n: u64)
    ensures
        parse_size_spec(format_size_spec(n)) == Some(n),
{
    if n > 0 && n % TIB == 0 {
        assert((n as int / TIB as int) * TIB == n);
        lemma_parse_digits_with_unit(n as int / TIB as int, 84u8, TIB);
    } else if n > 0 && n % GIB == 0 {
        assert((n as int / GIB as int) * GIB == n);
        lemma_parse_digits_with_unit(n as int / GIB as int, 71u8, GIB);
    } else if n > 0 && n % MIB == 0 {
        assert((n as int / MIB as int) * MIB == n);
        lemma_parse_digits_with_unit(n as int / MIB as int, 77u8, MIB);
    } else if n > 0 && n % KIB == 0 {
        assert((n as int / KIB as int) * KIB == n);
        lemma_parse_digits_with_unit(n as int / KIB as int, 75u8, KIB);
    } else {
        lemma_parse_plain_digits(n as int);
    }
}

/// Enforce the root-size policy: the root partition size must lie within
/// the inclusive 8 GiB to 64 GiB range, else `PolicyError`.
pub fn validate_root_size(size: u64) -> (r: Result<(), Error>)
    ensures
        r is Ok <==> MIN_ROOT_SIZE_GB * GIB <= size <= MAX_ROOT_SIZE_GB * GIB,
        r is Err ==> r == Err::<(), Error>(Error::PolicyError),
{
    if size < MIN_ROOT_SIZE_GB * GIB {
        return Err(Error::PolicyError);
    }
    if size > MAX_ROOT_SIZE_GB * GIB {
        return Err(Error::PolicyError);
    }
    Ok(())
}

} // verus!
