//! Tests for the model resolver: flattening and material binding.

use wavefront::lexer::Scalar;
use wavefront::obj::{Face, FaceIndexTriple, WavefrontObject};
use wavefront::resolve::{default_material, ResolveError, WavefrontModel};
use wavefront::{parse_mtl_string, parse_obj_string};

fn sc(neg: bool, int_digits: &[u8], frac_digits: &[u8]) -> Scalar {
    Scalar { neg, int_digits: int_digits.to_vec(), frac_digits: frac_digits.to_vec() }
}

const SCENE: &[u8] = b"o Obj1\nv 0 0 0\nv 1 0 0\nv 0 1 0\nvn 0 0 1\nf 1/ /1 2/ /1 3/ /1\n";

#[test]
fn scenario_flattening() {
    let data = parse_obj_string(SCENE).unwrap();
    let model = WavefrontModel::new(data, None);
    let resolved = model.to_vertices().unwrap();
    assert_eq!(resolved.len(), 1);
    let (verts, mat) = &resolved[0];
    assert_eq!(verts.len(), 3);
    let zero = || sc(false, b"0", b"0");
    let one = || sc(false, b"1", b"0");
    assert_eq!((&verts[0].position.x, &verts[0].position.y, &verts[0].position.z),
        (&zero(), &zero(), &zero()));
    assert_eq!((&verts[1].position.x, &verts[1].position.y, &verts[1].position.z),
        (&one(), &zero(), &zero()));
    assert_eq!((&verts[2].position.x, &verts[2].position.y, &verts[2].position.z),
        (&zero(), &one(), &zero()));
    for v in verts {
        assert_eq!((&v.normal.x, &v.normal.y, &v.normal.z), (&zero(), &zero(), &one()));
    }
    // No table was supplied, so the object gets the default material.
    assert_eq!(*mat, default_material());
}

#[test]
fn default_material_constants() {
    let m = default_material();
    assert_eq!(m.name, b"Default material".to_vec());
    assert_eq!(m.specular_exponent, sc(false, b"1", b"0"));
    assert_eq!(m.ambient.x, sc(false, b"1", b"0"));
    assert_eq!(m.ambient.y, sc(false, b"0", b"0"));
    assert_eq!(m.ambient.z, sc(false, b"0", b"0"));
    assert_eq!(m.diffuse, m.ambient);
    assert_eq!(m.specular.x, sc(false, b"0", b"7"));
    assert_eq!(m.specular.y, sc(false, b"0", b"7"));
    assert_eq!(m.specular.z, sc(false, b"0", b"7"));
}

#[test]
fn absent_material_name_resolves_to_default() {
    let data = parse_obj_string(b"o O\nusemtl Missing\nv 0 0 0\nvn 0 0 1\nf 1//1 1//1 1//1\n")
        .unwrap();
    let table = parse_mtl_string(b"newmtl Other\nNs 2\n").unwrap();
    let model = WavefrontModel::new(data, Some(table));
    let resolved = model.to_vertices().unwrap();
    assert_eq!(resolved[0].1, default_material());
}

#[test]
fn bound_material_is_taken_from_table() {
    let data = parse_obj_string(b"o O\nusemtl Shiny\nv 0 0 0\nvn 0 0 1\nf 1//1 1//1 1//1\n")
        .unwrap();
    let table = parse_mtl_string(b"newmtl Shiny\nNs 96.0\n").unwrap();
    let model = WavefrontModel::new(data, Some(table));
    let resolved = model.to_vertices().unwrap();
    assert_eq!(resolved[0].1.name, b"Shiny".to_vec());
    assert_eq!(resolved[0].1.specular_exponent, sc(false, b"96", b"0"));
}

#[test]
fn vertices_are_duplicated_per_face_in_order() {
    let data = parse_obj_string(
        b"o O\nv 0 0 0\nv 1 0 0\nvn 0 0 1\nf 1//1 2//1 1//1\nf 2//1 2//1 2//1\n",
    )
    .unwrap();
    let model = WavefrontModel::new(data, None);
    let resolved = model.to_vertices().unwrap();
    let (verts, _) = &resolved[0];
    assert_eq!(verts.len(), 6);
    assert_eq!(verts[0].position, verts[2].position);
    assert_eq!(verts[1].position, verts[3].position);
}

#[test]
fn stored_out_of_range_index_is_hard_error() {
    // A model assembled by hand with a dangling index: resolution must
    // fail, never substitute a default vertex.
    let data = parse_obj_string(b"o O\nv 0 0 0\nvn 0 0 1\n").unwrap();
    let mut data = data;
    data.objects[0].faces.push(Face {
        a: FaceIndexTriple { position: 7, texcoord: None, normal: 0 },
        b: FaceIndexTriple { position: 0, texcoord: None, normal: 0 },
        c: FaceIndexTriple { position: 0, texcoord: None, normal: 0 },
    });
    let model = WavefrontModel::new(data, None);
    assert_eq!(model.to_vertices().unwrap_err(), ResolveError::OutOfRange);
}

#[test]
fn objects_resolve_in_document_order() {
    let data = parse_obj_string(b"o A\no B\no C\n").unwrap();
    let names: Vec<Vec<u8>> =
        data.objects.iter().map(|o: &WavefrontObject| o.name.clone()).collect();
    assert_eq!(names, vec![b"A".to_vec(), b"B".to_vec(), b"C".to_vec()]);
    let model = WavefrontModel::new(data, None);
    let resolved = model.to_vertices().unwrap();
    assert_eq!(resolved.len(), 3);
    for (verts, mat) in &resolved {
        assert_eq!(verts.len(), 0);
        assert_eq!(*mat, default_material());
    }
}

#[test]
fn action_variants_are_distinct() {
    assert_ne!(wavefront::Action::Stop, wavefront::Action::Continue);
}
