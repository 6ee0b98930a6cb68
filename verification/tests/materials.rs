//! Tests for the material-library grammar and aggregation pass.

use wavefront::lexer::{Scalar, Triple};
use wavefront::mtl::MaterialTable;
use wavefront::{parse_mtl_string, ParseError};

fn sc(neg: bool, int_digits: &[u8], frac_digits: &[u8]) -> Scalar {
    Scalar { neg, int_digits: int_digits.to_vec(), frac_digits: frac_digits.to_vec() }
}

fn color(x: Scalar, y: Scalar, z: Scalar) -> Triple {
    Triple { x, y, z }
}

fn parse_ok(input: &[u8]) -> MaterialTable {
    parse_mtl_string(input).unwrap()
}

#[test]
fn scenario_single_material() {
    let t = parse_ok(b"newmtl M\nNs 96.0\nKa 0.1 0.1 0.1\nKd 0.8 0.2 0.2\nKs 0.5 0.5 0.5\n");
    let m = t.get(b"M").unwrap();
    assert_eq!(m.name, b"M".to_vec());
    assert_eq!(m.specular_exponent, sc(false, b"96", b"0"));
    let tenth = || sc(false, b"0", b"1");
    assert_eq!(m.ambient, color(tenth(), tenth(), tenth()));
    assert_eq!(
        m.diffuse,
        color(sc(false, b"0", b"8"), sc(false, b"0", b"2"), sc(false, b"0", b"2"))
    );
    let half = || sc(false, b"0", b"5");
    assert_eq!(m.specular, color(half(), half(), half()));
}

#[test]
fn unassigned_fields_keep_zero_defaults() {
    let t = parse_ok(b"newmtl Bare\n");
    let m = t.get(b"Bare").unwrap();
    let zero = || sc(false, b"0", b"0");
    assert_eq!(m.specular_exponent, zero());
    assert_eq!(m.ambient, color(zero(), zero(), zero()));
    assert_eq!(m.diffuse, color(zero(), zero(), zero()));
    assert_eq!(m.specular, color(zero(), zero(), zero()));
}

#[test]
fn field_before_material_is_structural() {
    let r = parse_mtl_string(b"Ka 0.1 0.1 0.1\nnewmtl M\n");
    assert_eq!(r.unwrap_err(), ParseError::StructuralError { line: 0 });
}

#[test]
fn exponent_before_material_is_structural() {
    let r = parse_mtl_string(b"Ns 10\n");
    assert_eq!(r.unwrap_err(), ParseError::StructuralError { line: 0 });
}

#[test]
fn malformed_color_is_grammar_mismatch() {
    let r = parse_mtl_string(b"newmtl M\nKa 0.1 0.1\n");
    assert_eq!(r.unwrap_err(), ParseError::GrammarMismatch { line: 1 });
}

#[test]
fn dangling_material_line_is_incomplete() {
    let r = parse_mtl_string(b"newmtl M\nNs 96.0");
    assert_eq!(r.unwrap_err(), ParseError::IncompleteInput);
}

#[test]
fn later_definition_of_a_name_wins() {
    let t = parse_ok(b"newmtl M\nKa 0.1 0.1 0.1\nnewmtl M\nKd 0.2 0.2 0.2\n");
    let m = t.get(b"M").unwrap();
    let zero = || sc(false, b"0", b"0");
    // The second definition starts from defaults again.
    assert_eq!(m.ambient, color(zero(), zero(), zero()));
    assert_eq!(m.diffuse, color(sc(false, b"0", b"2"), sc(false, b"0", b"2"), sc(false, b"0", b"2")));
}

#[test]
fn several_materials_keyed_by_name() {
    let t = parse_ok(b"newmtl A\nNs 1\nnewmtl B\nNs 2\n");
    assert_eq!(t.get(b"A").unwrap().specular_exponent, sc(false, b"1", b"0"));
    assert_eq!(t.get(b"B").unwrap().specular_exponent, sc(false, b"2", b"0"));
    assert!(t.get(b"C").is_none());
}

#[test]
fn unrelated_directives_are_ignored() {
    let t = parse_ok(b"# comment\nnewmtl M\nillum 2\nd 1.0\nmap_Kd tex.png\nNi 1.45\nKe 0 0 0\n");
    assert!(t.get(b"M").is_some());
}

#[test]
fn empty_material_input_is_empty_table() {
    let t = parse_ok(b"");
    assert!(t.get(b"M").is_none());
}

#[test]
fn building_a_table_by_hand() {
    let mut t = MaterialTable::new();
    assert!(t.get(b"X").is_none());
    let mut m = wavefront::resolve::default_material();
    m.name = b"X".to_vec();
    t.insert(m);
    assert_eq!(t.get(b"X").unwrap().name, b"X".to_vec());
}

#[test]
fn parsing_material_twice_is_idempotent() {
    let input: &[u8] = b"newmtl M\nNs 96.0\nKa 0.1 0.1 0.1\nnewmtl N\nKs 1 1 1\n";
    let r1 = parse_mtl_string(input);
    let r2 = parse_mtl_string(input);
    assert_eq!(r1, r2);
}
