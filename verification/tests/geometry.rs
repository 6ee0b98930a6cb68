//! Tests for the geometry line grammar and aggregation pass.

use wavefront::lexer::Scalar;
use wavefront::obj::{Face, FaceIndexTriple, WavefrontModelData};
use wavefront::{parse_obj_string, ParseError};

fn sc(neg: bool, int_digits: &[u8], frac_digits: &[u8]) -> Scalar {
    Scalar { neg, int_digits: int_digits.to_vec(), frac_digits: frac_digits.to_vec() }
}

fn parse_ok(input: &[u8]) -> WavefrontModelData {
    parse_obj_string(input).unwrap()
}

#[test]
fn scenario_single_object() {
    let d = parse_ok(b"o Obj1\nv 0 0 0\nv 1 0 0\nv 0 1 0\nvn 0 0 1\nf 1/ /1 2/ /1 3/ /1\n");
    assert_eq!(d.objects.len(), 1);
    assert_eq!(d.objects[0].name, b"Obj1".to_vec());
    assert_eq!(d.vertices.len(), 3);
    assert_eq!(d.normals.len(), 1);
    assert_eq!(d.texcoords.len(), 0);
    assert_eq!(d.objects[0].faces.len(), 1);
    let f = d.objects[0].faces[0];
    assert_eq!(
        f,
        Face {
            a: FaceIndexTriple { position: 0, texcoord: None, normal: 0 },
            b: FaceIndexTriple { position: 1, texcoord: None, normal: 0 },
            c: FaceIndexTriple { position: 2, texcoord: None, normal: 0 },
        }
    );
    assert_eq!(d.vertices[1].x, sc(false, b"1", b"0"));
    assert_eq!(d.normals[0].z, sc(false, b"1", b"0"));
    assert_eq!(d.mtl_lib, None);
}

#[test]
fn face_before_object_is_structural() {
    let r = parse_obj_string(b"v 0 0 0\nvn 0 0 1\nf 1/ /1 1/ /1 1/ /1\n");
    assert_eq!(r.unwrap_err(), ParseError::StructuralError { line: 2 });
}

#[test]
fn usemtl_before_object_is_structural() {
    let r = parse_obj_string(b"usemtl Shiny\n");
    assert_eq!(r.unwrap_err(), ParseError::StructuralError { line: 0 });
}

#[test]
fn smoothing_before_object_is_structural() {
    let r = parse_obj_string(b"s on\n");
    assert_eq!(r.unwrap_err(), ParseError::StructuralError { line: 0 });
}

#[test]
fn out_of_range_position_is_reference_error() {
    let r = parse_obj_string(b"o O\nv 0 0 0\nv 1 0 0\nv 0 1 0\nvn 0 0 1\nf 5/ /1 1/ /1 2/ /1\n");
    assert_eq!(r.unwrap_err(), ParseError::ReferenceError { line: 5 });
}

#[test]
fn out_of_range_normal_is_reference_error() {
    let r = parse_obj_string(b"o O\nv 0 0 0\nvn 0 0 1\nf 1/ /2 1/ /1 1/ /1\n");
    assert_eq!(r.unwrap_err(), ParseError::ReferenceError { line: 3 });
}

#[test]
fn index_zero_is_reference_error() {
    let r = parse_obj_string(b"o O\nv 0 0 0\nvn 0 0 1\nf 0/ /1 1/ /1 1/ /1\n");
    assert_eq!(r.unwrap_err(), ParseError::ReferenceError { line: 3 });
}

#[test]
fn indices_count_pools_declared_so_far() {
    // The face stands before the third vertex is declared, so index 3 is
    // out of range at that point even though the document later has it.
    let r = parse_obj_string(b"o O\nv 0 0 0\nv 1 0 0\nvn 0 0 1\nf 1/ /1 2/ /1 3/ /1\nv 0 1 0\n");
    assert_eq!(r.unwrap_err(), ParseError::ReferenceError { line: 4 });
}

#[test]
fn dangling_final_line_is_incomplete() {
    let r = parse_obj_string(b"o O\nv 1 2 3");
    assert_eq!(r.unwrap_err(), ParseError::IncompleteInput);
}

#[test]
fn empty_input_is_empty_document() {
    let d = parse_ok(b"");
    assert_eq!(d.objects.len(), 0);
    assert_eq!(d.vertices.len(), 0);
}

#[test]
fn malformed_vertex_is_grammar_mismatch() {
    let r = parse_obj_string(b"v 1 2\n");
    assert_eq!(r.unwrap_err(), ParseError::GrammarMismatch { line: 0 });
}

#[test]
fn vertex_with_trailing_junk_is_grammar_mismatch() {
    let r = parse_obj_string(b"v 1 2 3 4\n");
    assert_eq!(r.unwrap_err(), ParseError::GrammarMismatch { line: 0 });
}

#[test]
fn bad_smoothing_token_is_grammar_mismatch() {
    let r = parse_obj_string(b"o O\ns maybe\n");
    assert_eq!(r.unwrap_err(), ParseError::GrammarMismatch { line: 1 });
}

#[test]
fn face_index_too_large_is_grammar_mismatch() {
    let r = parse_obj_string(b"o O\nv 0 0 0\nvn 0 0 1\nf 4294967296/ /1 1/ /1 1/ /1\n");
    assert_eq!(r.unwrap_err(), ParseError::GrammarMismatch { line: 3 });
}

#[test]
fn unknown_directives_are_ignored() {
    let d = parse_ok(b"# comment\ng group1\nvp 1 2\no O\nv 1 2 3\n");
    assert_eq!(d.objects.len(), 1);
    assert_eq!(d.vertices.len(), 1);
}

#[test]
fn smoothing_and_material_bind_to_open_object() {
    let d = parse_ok(b"o A\ns on\nusemtl Shiny\no B\ns off\n");
    assert_eq!(d.objects.len(), 2);
    assert_eq!(d.objects[0].smoothing, Some(true));
    assert_eq!(d.objects[0].material_name, Some(b"Shiny".to_vec()));
    assert_eq!(d.objects[1].smoothing, Some(false));
    assert_eq!(d.objects[1].material_name, None);
}

#[test]
fn mtllib_last_one_wins() {
    let d = parse_ok(b"mtllib a.mtl\nmtllib b.mtl\no O\n");
    assert_eq!(d.mtl_lib, Some(b"b.mtl".to_vec()));
}

#[test]
fn texcoord_third_component_defaults_to_zero() {
    let d = parse_ok(b"vt 0.5 0.25\nvt 1 2 3\n");
    assert_eq!(d.texcoords.len(), 2);
    assert_eq!(d.texcoords[0].z, sc(false, b"0", b"0"));
    assert_eq!(d.texcoords[1].z, sc(false, b"3", b"0"));
}

#[test]
fn face_with_texture_indices() {
    let d = parse_ok(b"o O\nv 0 0 0\nvt 0 0\nvn 0 0 1\nf 1/1/1 1/1/1 1/1/1\n");
    let f = d.objects[0].faces[0];
    assert_eq!(f.a.texcoord, Some(0));
}

#[test]
fn faces_append_to_most_recent_object() {
    let d = parse_ok(b"o A\nv 0 0 0\nvn 0 0 1\nf 1//1 1//1 1//1\no B\nf 1//1 1//1 1//1\n");
    assert_eq!(d.objects[0].faces.len(), 1);
    assert_eq!(d.objects[1].faces.len(), 1);
}

#[test]
fn tabs_count_as_blanks() {
    let d = parse_ok(b"o\tO\nv\t1\t2\t3\n");
    assert_eq!(d.objects[0].name, b"O".to_vec());
    assert_eq!(d.vertices.len(), 1);
}

#[test]
fn parsing_twice_is_idempotent() {
    let input: &[u8] = b"mtllib m.mtl\no A\nv 0 0 0\nv 1 1 1\nvn 0 0 1\nf 1//1 2//1 1//1\ns on\n";
    let r1 = parse_obj_string(input);
    let r2 = parse_obj_string(input);
    assert_eq!(r1, r2);
}
