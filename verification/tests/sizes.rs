use rpi_fs_shrink::errors::Error;
use rpi_fs_shrink::sizes::{format_size, parse_size, validate_root_size};

const KIB: u64 = 1024;
const MIB: u64 = 1024 * 1024;
const GIB: u64 = 1024 * 1024 * 1024;
const TIB: u64 = 1024 * 1024 * 1024 * 1024;

#[test]
fn parses_plain_binary_multiples() {
    assert_eq!(parse_size(b"8G"), Ok(8 * GIB));
    assert_eq!(parse_size(b"512M"), Ok(512 * MIB));
    assert_eq!(parse_size(b"4K"), Ok(4 * KIB));
    assert_eq!(parse_size(b"2T"), Ok(2 * TIB));
    assert_eq!(parse_size(b"123"), Ok(123));
}

#[test]
fn parses_case_insensitively_with_byte_marker() {
    assert_eq!(parse_size(b"8g"), Ok(8 * GIB));
    assert_eq!(parse_size(b"8GB"), Ok(8 * GIB));
    assert_eq!(parse_size(b"8gb"), Ok(8 * GIB));
    assert_eq!(parse_size(b"8B"), Ok(8));
    assert_eq!(parse_size(b"8b"), Ok(8));
}

#[test]
fn parses_with_surrounding_and_inner_whitespace() {
    assert_eq!(parse_size(b" 8G "), Ok(8 * GIB));
    assert_eq!(parse_size(b"8 G"), Ok(8 * GIB));
    assert_eq!(parse_size(b"\t512 M\n"), Ok(512 * MIB));
}

#[test]
fn parses_fractions_with_truncation() {
    assert_eq!(parse_size(b"1.5G"), Ok(3 * GIB / 2));
    assert_eq!(parse_size(b"0.5K"), Ok(512));
    assert_eq!(parse_size(b"2.25M"), Ok(2 * MIB + MIB / 4));
    // 0.3 KiB = 307.2 bytes, truncated.
    assert_eq!(parse_size(b"0.3K"), Ok(307));
}

#[test]
fn rejects_malformed_sizes() {
    assert_eq!(parse_size(b""), Err(Error::ParseError));
    assert_eq!(parse_size(b"G"), Err(Error::ParseError));
    assert_eq!(parse_size(b"8X"), Err(Error::ParseError));
    assert_eq!(parse_size(b"8.G"), Err(Error::ParseError));
    assert_eq!(parse_size(b"8 . 5"), Err(Error::ParseError));
    assert_eq!(parse_size(b"8K5"), Err(Error::ParseError));
    assert_eq!(parse_size(b"8KBB"), Err(Error::ParseError));
    assert_eq!(parse_size(b"-8G"), Err(Error::ParseError));
}

#[test]
fn saturates_unrepresentable_sizes() {
    assert_eq!(parse_size(b"99999999999999999999T"), Ok(u64::MAX));
}

#[test]
fn formats_with_largest_dividing_unit() {
    assert_eq!(format_size(8 * GIB), b"8G".to_vec());
    assert_eq!(format_size(512 * MIB), b"512M".to_vec());
    assert_eq!(format_size(KIB), b"1K".to_vec());
    assert_eq!(format_size(3 * TIB), b"3T".to_vec());
    assert_eq!(format_size(0), b"0".to_vec());
    assert_eq!(format_size(1536), b"1536".to_vec());
}

#[test]
fn format_then_parse_round_trips() {
    for n in [
        0u64,
        1,
        511,
        512,
        1536,
        KIB,
        MIB,
        GIB,
        TIB,
        8 * GIB,
        3 * TIB / 2,
        u64::MAX,
        u64::MAX - 1,
    ] {
        assert_eq!(parse_size(&format_size(n)), Ok(n));
    }
}

#[test]
fn root_size_policy_bounds_are_inclusive() {
    assert_eq!(validate_root_size(8 * GIB), Ok(()));
    assert_eq!(validate_root_size(64 * GIB), Ok(()));
    assert_eq!(validate_root_size(16 * GIB), Ok(()));
    assert_eq!(validate_root_size(8 * GIB - 1), Err(Error::PolicyError));
    assert_eq!(validate_root_size(64 * GIB + 1), Err(Error::PolicyError));
    assert_eq!(validate_root_size(0), Err(Error::PolicyError));
}
