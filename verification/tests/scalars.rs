//! Tests for the numeric lexer: literal forms, edge cases, and the
//! parse/re-serialize round trip.

use wavefront::lexer::{render_scalar, scan_scalar, scan_u32, Scalar};

fn sc(neg: bool, int_digits: &[u8], frac_digits: &[u8]) -> Scalar {
    Scalar { neg, int_digits: int_digits.to_vec(), frac_digits: frac_digits.to_vec() }
}

#[test]
fn scan_plain_integer_defaults_fraction() {
    let (s, end) = scan_scalar(b"42 ", 0).unwrap();
    assert_eq!(s, sc(false, b"42", b"0"));
    assert_eq!(end, 2);
}

#[test]
fn scan_negative_fractional() {
    let (s, end) = scan_scalar(b"-12.5x", 0).unwrap();
    assert_eq!(s, sc(true, b"12", b"5"));
    assert_eq!(end, 5);
}

#[test]
fn scan_keeps_leading_zeros() {
    let (s, end) = scan_scalar(b"007.500", 0).unwrap();
    assert_eq!(s, sc(false, b"007", b"500"));
    assert_eq!(end, 7);
}

#[test]
fn scan_dot_without_digits_left_unconsumed() {
    let (s, end) = scan_scalar(b"5.", 0).unwrap();
    assert_eq!(s, sc(false, b"5", b"0"));
    assert_eq!(end, 1);
}

#[test]
fn scan_requires_integer_digits() {
    assert!(scan_scalar(b"abc", 0).is_none());
    assert!(scan_scalar(b"-", 0).is_none());
    assert!(scan_scalar(b"-.5", 0).is_none());
    assert!(scan_scalar(b".5", 0).is_none());
    assert!(scan_scalar(b"", 0).is_none());
}

#[test]
fn scan_rejects_leading_plus() {
    assert!(scan_scalar(b"+1", 0).is_none());
}

#[test]
fn scan_at_offset() {
    let (s, end) = scan_scalar(b"v 1.25", 2).unwrap();
    assert_eq!(s, sc(false, b"1", b"25"));
    assert_eq!(end, 6);
}

#[test]
fn round_trip_reproduces_scalar() {
    for text in [&b"0"[..], b"-7", b"12.625", b"-0.001", b"007.500", b"4294967296.5"] {
        let (parsed, _) = scan_scalar(text, 0).unwrap();
        let rendered = render_scalar(&parsed);
        let (reparsed, end) = scan_scalar(rendered.as_slice(), 0).unwrap();
        assert_eq!(reparsed, parsed);
        assert_eq!(end, rendered.len());
    }
}

#[test]
fn round_trip_preserves_float_value() {
    for text in ["0", "-7", "12.625", "-0.001", "007.500", "96.0", "3.14159"] {
        let (parsed, end) = scan_scalar(text.as_bytes(), 0).unwrap();
        assert_eq!(end, text.len());
        let rendered = String::from_utf8(render_scalar(&parsed)).unwrap();
        let before: f32 = text.parse().unwrap();
        let after: f32 = rendered.parse().unwrap();
        assert_eq!(before.to_bits(), after.to_bits());
    }
}

#[test]
fn render_completes_missing_fraction() {
    let (parsed, _) = scan_scalar(b"5", 0).unwrap();
    assert_eq!(render_scalar(&parsed), b"5.0".to_vec());
    let (parsed, _) = scan_scalar(b"-3.25", 0).unwrap();
    assert_eq!(render_scalar(&parsed), b"-3.25".to_vec());
}

#[test]
fn scan_u32_plain_run() {
    let (v, end) = scan_u32(b"0123x", 0).unwrap();
    assert_eq!(v, 123);
    assert_eq!(end, 4);
}

#[test]
fn scan_u32_requires_digits() {
    assert!(scan_u32(b"x", 0).is_none());
    assert!(scan_u32(b"", 0).is_none());
}

#[test]
fn scan_u32_limit() {
    let (v, _) = scan_u32(b"4294967295", 0).unwrap();
    assert_eq!(v, u32::MAX);
    assert!(scan_u32(b"4294967296", 0).is_none());
}
