//! Geometry documents: the line grammar and the aggregation pass.
//!
//! Each input line is classified as one production of the grammar (vertex,
//! normal, texture coordinate, face, object start, material references,
//! smoothing toggle, comment, or an ignorable line), and the resulting
//! ordered records are folded into a `WavefrontModelData`: flat attribute
//! pools shared by all objects, plus a sequence of named objects holding
//! triangular faces by 0-based pool index.

use vstd::prelude::*;

use crate::ParseError;
use crate::lexer::{
    Scalar, Triple, TripleV, space_run_end, token_run_end, spec_scan_scalar, spec_scan_triple,
    spec_scan_u32, spec_split_lines, spec_zero_scalar, lines_view, advance_token, advance_spaces,
    scan_scalar, scan_triple, scan_u32, split_lines, copy_range, dup_bytes,
};

verus! {

/// One corner of a face: 1-based indices into the position pool, the
/// optional texture-coordinate pool, and the normal pool as written in the
/// text; the aggregation pass converts them to 0-based offsets.
#[derive(Clone, Copy, Debug, PartialEq, Eq)]
pub struct FaceIndexTriple {
    pub position: u32,
    pub texcoord: Option<u32>,
    pub normal: u32,
}

/// A triangle: exactly three index triples.
#[derive(Clone, Copy, Debug, PartialEq, Eq)]
pub struct Face {
    pub a: FaceIndexTriple,
    pub b: FaceIndexTriple,
    pub c: FaceIndexTriple,
}

/// One classified line of a geometry document.
#[derive(Clone, Debug, PartialEq, Eq)]
pub enum FileEntity {
    Vertex(Triple),
    Normal(Triple),
    TexCoord(Triple),
    FaceDef(Face),
    Material(Vec<u8>),
    Smoothing(bool),
    Object(Vec<u8>),
    MatLib(Vec<u8>),
    Comment,
    Ignore,
}

/// Mathematical model of a `FileEntity`.
pub ghost enum FileEntityV {
    Vertex(TripleV),
    Normal(TripleV),
    TexCoord(TripleV),
    FaceDef(Face),
    Material(Seq<u8>),
    Smoothing(bool),
    Object(Seq<u8>),
    MatLib(Seq<u8>),
    Comment,
    Ignore,
}

impl View for FileEntity {
    type V = FileEntityV;

    open spec fn view(&self) -> FileEntityV {
        match self {
            FileEntity::Vertex(t) => FileEntityV::Vertex(t@),
            FileEntity::Normal(t) => FileEntityV::Normal(t@),
            FileEntity::TexCoord(t) => FileEntityV::TexCoord(t@),
            FileEntity::FaceDef(f) => FileEntityV::FaceDef(*f),
            FileEntity::Material(n) => FileEntityV::Material(n@),
            FileEntity::Smoothing(b) => FileEntityV::Smoothing(*b),
            FileEntity::Object(n) => FileEntityV::Object(n@),
            FileEntity::MatLib(n) => FileEntityV::MatLib(n@),
            FileEntity::Comment => FileEntityV::Comment,
            FileEntity::Ignore => FileEntityV::Ignore,
        }
    }
}

/// Rest of a `v` or `vn` line: mandatory blanks, a scalar triple, then the
/// end of the line.
pub open spec fn spec_triple_rest(line: Seq<u8>, t: int) -> Option<TripleV>
    recommends
        0 <= t <= line.len(),
{
    let p = space_run_end(line, t);
    if p == t {
        None
    } else {
        match spec_scan_triple(line, p) {
            None => None,
            Some((tr, e)) => if e == line.len() {
                Some(tr)
            } else {
                None
            },
        }
    }
}

/// Rest of a `vt` line: two mandatory scalars, optional blanks, and an
/// optional third scalar that defaults to `0`.
pub open spec fn spec_texcoord_rest(line: Seq<u8>, t: int) -> Option<TripleV>
    recommends
        0 <= t <= line.len(),
{
    let p = space_run_end(line, t);
    if p == t {
        None
    } else {
        match spec_scan_scalar(line, p) {
            None => None,
            Some((u, j1)) => {
                let p1 = space_run_end(line, j1);
                if p1 == j1 {
                    None
                } else {
                    match spec_scan_scalar(line, p1) {
                        None => None,
                        Some((v, j2)) => {
                            let p2 = space_run_end(line, j2);
                            if p2 == line.len() {
                                Some(TripleV { x: u, y: v, z: spec_zero_scalar() })
                            } else {
                                match spec_scan_scalar(line, p2) {
                                    None => None,
                                    Some((w, j3)) => if j3 == line.len() {
                                        Some(TripleV { x: u, y: v, z: w })
                                    } else {
                                        None
                                    },
                                }
                            }
                        },
                    }
                }
            },
        }
    }
}

/// One face corner written `idx/idx-or-empty/idx`. Blanks may stand between
/// the first slash and an empty texture slot's closing slash.
pub open spec fn spec_scan_face_corner(s: Seq<u8>, i: int) -> Option<(FaceIndexTriple, int)>
    recommends
        0 <= i <= s.len(),
{
    match spec_scan_u32(s, i) {
        None => None,
        Some((pos, j)) => {
            if j < s.len() && s[j] == 0x2f {
                let p = space_run_end(s, j + 1);
                match spec_scan_u32(s, p) {
                    Some((tex, k)) => {
                        if k < s.len() && s[k] == 0x2f {
                            match spec_scan_u32(s, k + 1) {
                                None => None,
                                Some((nrm, e)) => Some(
                                    (
                                        FaceIndexTriple {
                                            position: pos,
                                            texcoord: Some(tex),
                                            normal: nrm,
                                        },
                                        e,
                                    ),
                                ),
                            }
                        } else {
                            None
                        }
                    },
                    None => {
                        if p < s.len() && s[p] == 0x2f {
                            match spec_scan_u32(s, p + 1) {
                                None => None,
                                Some((nrm, e)) => Some(
                                    (
                                        FaceIndexTriple { position: pos, texcoord: None, normal: nrm },
                                        e,
                                    ),
                                ),
                            }
                        } else {
                            None
                        }
                    },
                }
            } else {
                None
            }
        },
    }
}

/// Rest of an `f` line: three face corners separated by mandatory blanks,
/// then the end of the line.
pub open spec fn spec_face_rest(line: Seq<u8>, t: int) -> Option<Face>
    recommends
        0 <= t <= line.len(),
{
    let p = space_run_end(line, t);
    if p == t {
        None
    } else {
        match spec_scan_face_corner(line, p) {
            None => None,
            Some((a, j1)) => {
                let p1 = space_run_end(line, j1);
                if p1 == j1 {
                    None
                } else {
                    match spec_scan_face_corner(line, p1) {
                        None => None,
                        Some((b, j2)) => {
                            let p2 = space_run_end(line, j2);
                            if p2 == j2 {
                                None
                            } else {
                                match spec_scan_face_corner(line, p2) {
                                    None => None,
                                    Some((c, j3)) => if j3 == line.len() {
                                        Some(Face { a, b, c })
                                    } else {
                                        None
                                    },
                                }
                            }
                        },
                    }
                }
            },
        }
    }
}

/// Rest of a line whose tag is followed by a name taken verbatim: mandatory
/// blanks, then the remainder of the line (leading blanks consumed).
pub open spec fn spec_name_rest(line: Seq<u8>, t: int) -> Option<Seq<u8>>
    recommends
        0 <= t <= line.len(),
{
    let p = space_run_end(line, t);
    if p == t {
        None
    } else {
        Some(line.subrange(p, line.len() as int))
    }
}

/// Rest of an `s` line: mandatory blanks, then exactly `on` or `off`.
pub open spec fn spec_smoothing_rest(line: Seq<u8>, t: int) -> Option<bool>
    recommends
        0 <= t <= line.len(),
{
    let p = space_run_end(line, t);
    if p == t {
        None
    } else if line.len() - p == 2 && line[p] == 0x6f && line[p + 1] == 0x6e {
        Some(true)
    } else if line.len() - p == 3 && line[p] == 0x6f && line[p + 1] == 0x66 && line[p + 2]
        == 0x66 {
        Some(false)
    } else {
        None
    }
}

/// Classify one geometry line. A line starting with `#` is a comment; a
/// line whose leading blank-delimited token is a recognized tag must match
/// that tag's production in full, else the line is a grammar mismatch
/// (`None`); any other line is ignorable.
pub open spec fn spec_classify_obj_line(line: Seq<u8>) -> Option<FileEntityV> {
    if line.len() > 0 && line[0] == 0x23 {
        Some(FileEntityV::Comment)
    } else {
        let t = token_run_end(line, 0);
        if t == 1 && line[0] == 0x76 {
            // `v`
            match spec_triple_rest(line, t) {
                Some(tr) => Some(FileEntityV::Vertex(tr)),
                None => None,
            }
        } else if t == 2 && line[0] == 0x76 && line[1] == 0x6e {
            // `vn`
            match spec_triple_rest(line, t) {
                Some(tr) => Some(FileEntityV::Normal(tr)),
                None => None,
            }
        } else if t == 1 && line[0] == 0x66 {
            // `f`
            match spec_face_rest(line, t) {
                Some(f) => Some(FileEntityV::FaceDef(f)),
                None => None,
            }
        } else if t == 2 && line[0] == 0x76 && line[1] == 0x74 {
            // `vt`
            match spec_texcoord_rest(line, t) {
                Some(tr) => Some(FileEntityV::TexCoord(tr)),
                None => None,
            }
        } else if t == 6 && line[0] == 0x6d && line[1] == 0x74 && line[2] == 0x6c && line[3]
            == 0x6c && line[4] == 0x69 && line[5] == 0x62 {
            // `mtllib`
            match spec_name_rest(line, t) {
                Some(n) => Some(FileEntityV::MatLib(n)),
                None => None,
            }
        } else if t == 6 && line[0] == 0x75 && line[1] == 0x73 && line[2] == 0x65 && line[3]
            == 0x6d && line[4] == 0x74 && line[5] == 0x6c {
            // `usemtl`
            match spec_name_rest(line, t) {
                Some(n) => Some(FileEntityV::Material(n)),
                None => None,
            }
        } else if t == 1 && line[0] == 0x73 {
            // `s`
            match spec_smoothing_rest(line, t) {
                Some(b) => Some(FileEntityV::Smoothing(b)),
                None => None,
            }
        } else if t == 1 && line[0] == 0x6f {
            // `o`
            match spec_name_rest(line, t) {
                Some(n) => Some(FileEntityV::Object(n)),
                None => None,
            }
        } else {
            Some(FileEntityV::Ignore)
        }
    }
}

pub(crate) fn triple_rest(line: &[u8], t: usize) -> (r: Option<Triple>)
    requires
        t <= line@.len(),
    ensures
        match r {
            Some(tr) => spec_triple_rest(line@, t as int) == Some(tr@),
            None => spec_triple_rest(line@, t as int) is None,
        },
{
    let p = advance_spaces(line, t);
    if p == t {
        return None;
    }
    match scan_triple(line, p) {
        None => None,
        Some((tr, e)) => if e == line.len() {
            Some(tr)
        } else {
            None
        },
    }
}

fn texcoord_rest(line: &[u8], t: usize) -> (r: Option<Triple>)
    requires
        t <= line@.len(),
    ensures
        match r {
            Some(tr) => spec_texcoord_rest(line@, t as int) == Some(tr@),
            None => spec_texcoord_rest(line@, t as int) is None,
        },
{
    let p = advance_spaces(line, t);
    if p == t {
        return None;
    }
    let (u, j1) = match scan_scalar(line, p) {
        Some(r) => r,
        None => { return None; },
    };
    let p1 = advance_spaces(line, j1);
    if p1 == j1 {
        return None;
    }
    let (v, j2) = match scan_scalar(line, p1) {
        Some(r) => r,
        None => { return None; },
    };
    let p2 = advance_spaces(line, j2);
    if p2 == line.len() {
        let mut zi: Vec<u8> = Vec::new();
        zi.push(0x30);
        let mut zf: Vec<u8> = Vec::new();
        zf.push(0x30);
        let z = Scalar { neg: false, int_digits: zi, frac_digits: zf };
        proof {
            assert(z@.int_digits =~= spec_zero_scalar().int_digits);
            assert(z@.frac_digits =~= spec_zero_scalar().frac_digits);
        }
        return Some(Triple { x: u, y: v, z });
    }
    match scan_scalar(line, p2) {
        None => None,
        Some((w, j3)) => if j3 == line.len() {
            Some(Triple { x: u, y: v, z: w })
        } else {
            None
        },
    }
}

fn scan_face_corner(s: &[u8], i: usize) -> (r: Option<(FaceIndexTriple, usize)>)
    requires
        i <= s@.len(),
    ensures
        match r {
            Some((c, e)) => {
                &&& spec_scan_face_corner(s@, i as int) == Some((c, e as int))
                &&& i <= e <= s@.len()
            },
            None => spec_scan_face_corner(s@, i as int) is None,
        },
{
    let (pos, j) = match scan_u32(s, i) {
        Some(r) => r,
        None => { return None; },
    };
    if !(j < s.len() && s[j] == 0x2f) {
        return None;
    }
    let p = advance_spaces(s, j + 1);
    match scan_u32(s, p) {
        Some((tex, k)) => {
            if !(k < s.len() && s[k] == 0x2f) {
                return None;
            }
            match scan_u32(s, k + 1) {
                None => None,
                Some((nrm, e)) => Some(
                    (FaceIndexTriple { position: pos, texcoord: Some(tex), normal: nrm }, e),
                ),
            }
        },
        None => {
            if !(p < s.len() && s[p] == 0x2f) {
                return None;
            }
            match scan_u32(s, p + 1) {
                None => None,
                Some((nrm, e)) => Some(
                    (FaceIndexTriple { position: pos, texcoord: None, normal: nrm }, e),
                ),
            }
        },
    }
}

fn face_rest(line: &[u8], t: usize) -> (r: Option<Face>)
    requires
        t <= line@.len(),
    ensures
        match r {
            Some(f) => spec_face_rest(line@, t as int) == Some(f),
            None => spec_face_rest(line@, t as int) is None,
        },
{
    let p = advance_spaces(line, t);
    if p == t {
        return None;
    }
    let (a, j1) = match scan_face_corner(line, p) {
        Some(r) => r,
        None => { return None; },
    };
    let p1 = advance_spaces(line, j1);
    if p1 == j1 {
        return None;
    }
    let (b, j2) = match scan_face_corner(line, p1) {
        Some(r) => r,
        None => { return None; },
    };
    let p2 = advance_spaces(line, j2);
    if p2 == j2 {
        return None;
    }
    let (c, j3) = match scan_face_corner(line, p2) {
        Some(r) => r,
        None => { return None; },
    };
    if j3 == line.len() {
        Some(Face { a, b, c })
    } else {
        None
    }
}

pub(crate) fn name_rest(line: &[u8], t: usize) -> (r: Option<Vec<u8>>)
    requires
        t <= line@.len(),
    ensures
        match r {
            Some(n) => spec_name_rest(line@, t as int) == Some(n@),
            None => spec_name_rest(line@, t as int) is None,
        },
{
    let p = advance_spaces(line, t);
    if p == t {
        None
    } else {
        Some(copy_range(line, p, line.len()))
    }
}

fn smoothing_rest(line: &[u8], t: usize) -> (r: Option<bool>)
    requires
        t <= line@.len(),
    ensures
        match r {
            Some(b) => spec_smoothing_rest(line@, t as int) == Some(b),
            None => spec_smoothing_rest(line@, t as int) is None,
        },
{
    let p = advance_spaces(line, t);
    if p == t {
        None
    } else if line.len() - p == 2 && line[p] == 0x6f && line[p + 1] == 0x6e {
        Some(true)
    } else if line.len() - p == 3 && line[p] == 0x6f && line[p + 1] == 0x66 && line[p + 2]
        == 0x66 {
        Some(false)
    } else {
        None
    }
}

/// Classify one geometry line; `None` is a grammar mismatch.
pub fn classify_obj_line(line: &[u8]) -> (r: Option<FileEntity>)
    ensures
        match r {
            Some(e) => spec_classify_obj_line(line@) == Some(e@),
            None => spec_classify_obj_line(line@) is None,
        },
{
    if line.len() > 0 && line[0] == 0x23 {
        return Some(FileEntity::Comment);
    }
    let t = advance_token(line, 0);
    if t == 1 && line[0] == 0x76 {
        // `v`
        match triple_rest(line, t) {
            Some(tr) => Some(FileEntity::Vertex(tr)),
            None => None,
        }
    } else if t == 2 && line[0] == 0x76 && line[1] == 0x6e {
        // `vn`
        match triple_rest(line, t) {
            Some(tr) => Some(FileEntity::Normal(tr)),
            None => None,
        }
    } else if t == 1 && line[0] == 0x66 {
        // `f`
        match face_rest(line, t) {
            Some(f) => Some(FileEntity::FaceDef(f)),
            None => None,
        }
    } else if t == 2 && line[0] == 0x76 && line[1] == 0x74 {
        // `vt`
        match texcoord_rest(line, t) {
            Some(tr) => Some(FileEntity::TexCoord(tr)),
            None => None,
        }
    } else if t == 6 && line[0] == 0x6d && line[1] == 0x74 && line[2] == 0x6c && line[3] == 0x6c
        && line[4] == 0x69 && line[5] == 0x62 {
        // `mtllib`
        match name_rest(line, t) {
            Some(n) => Some(FileEntity::MatLib(n)),
            None => None,
        }
    } else if t == 6 && line[0] == 0x75 && line[1] == 0x73 && line[2] == 0x65 && line[3] == 0x6d
        && line[4] == 0x74 && line[5] == 0x6c {
        // `usemtl`
        match name_rest(line, t) {
            Some(n) => Some(FileEntity::Material(n)),
            None => None,
        }
    } else if t == 1 && line[0] == 0x73 {
        // `s`
        match smoothing_rest(line, t) {
            Some(b) => Some(FileEntity::Smoothing(b)),
            None => None,
        }
    } else if t == 1 && line[0] == 0x6f {
        // `o`
        match name_rest(line, t) {
            Some(n) => Some(FileEntity::Object(n)),
            None => None,
        }
    } else {
        Some(FileEntity::Ignore)
    }
}

/// A named object: an optional bound material name, an optional smoothing
/// flag, and the faces appended while the object was the open one. Face
/// indices are 0-based offsets into the document-wide pools.
#[derive(Clone, Debug, PartialEq, Eq)]
pub struct WavefrontObject {
    pub name: Vec<u8>,
    pub material_name: Option<Vec<u8>>,
    pub smoothing: Option<bool>,
    pub faces: Vec<Face>,
}

/// Mathematical model of a `WavefrontObject`.
#[verifier::ext_equal]
pub ghost struct ObjectV {
    pub name: Seq<u8>,
    pub material_name: Option<Seq<u8>>,
    pub smoothing: Option<bool>,
    pub faces: Seq<Face>,
}

impl View for WavefrontObject {
    type V = ObjectV;

    open spec fn view(&self) -> ObjectV {
        ObjectV {
            name: self.name@,
            material_name: match self.material_name {
                Some(n) => Some(n@),
                None => None,
            },
            smoothing: self.smoothing,
            faces: self.faces@,
        }
    }
}

/// A parsed geometry document: flat attribute pools shared by all objects,
/// the objects in source order, and the last material-library reference.
#[derive(Clone, Debug, PartialEq, Eq)]
pub struct WavefrontModelData {
    pub vertices: Vec<Triple>,
    pub normals: Vec<Triple>,
    pub texcoords: Vec<Triple>,
    pub objects: Vec<WavefrontObject>,
    pub mtl_lib: Option<Vec<u8>>,
}

/// Mathematical model of a `WavefrontModelData`.
#[verifier::ext_equal]
pub ghost struct DocV {
    pub vertices: Seq<TripleV>,
    pub normals: Seq<TripleV>,
    pub texcoords: Seq<TripleV>,
    pub objects: Seq<ObjectV>,
    pub mtl_lib: Option<Seq<u8>>,
}

pub open spec fn triples_view(s: Seq<Triple>) -> Seq<TripleV> {
    s.map_values(|t: Triple| t@)
}

pub open spec fn objects_view(s: Seq<WavefrontObject>) -> Seq<ObjectV> {
    s.map_values(|o: WavefrontObject| o@)
}

pub open spec fn entities_view(s: Seq<FileEntity>) -> Seq<FileEntityV> {
    s.map_values(|e: FileEntity| e@)
}

impl View for WavefrontModelData {
    type V = DocV;

    open spec fn view(&self) -> DocV {
        DocV {
            vertices: triples_view(self.vertices@),
            normals: triples_view(self.normals@),
            texcoords: triples_view(self.texcoords@),
            objects: objects_view(self.objects@),
            mtl_lib: match self.mtl_lib {
                Some(n) => Some(n@),
                None => None,
            },
        }
    }
}

/// The document before any line has been folded in.
pub open spec fn spec_empty_doc() -> DocV {
    DocV {
        vertices: Seq::<TripleV>::empty(),
        normals: Seq::<TripleV>::empty(),
        texcoords: Seq::<TripleV>::empty(),
        objects: Seq::<ObjectV>::empty(),
        mtl_lib: None,
    }
}

/// A corner's 1-based indices lie within the pools declared so far. The
/// texture slot is only required to be a positive index; it is not checked
/// against the texture-coordinate pool.
pub open spec fn corner_in_bounds(c: FaceIndexTriple, nv: nat, nn: nat) -> bool {
    &&& 1 <= c.position <= nv
    &&& 1 <= c.normal <= nn
    &&& match c.texcoord {
        Some(t) => t >= 1,
        None => true,
    }
}

pub open spec fn face_in_bounds(f: Face, nv: nat, nn: nat) -> bool {
    corner_in_bounds(f.a, nv, nn) && corner_in_bounds(f.b, nv, nn) && corner_in_bounds(f.c, nv, nn)
}

/// 1-based indices become 0-based pool offsets.
pub open spec fn spec_convert_corner(c: FaceIndexTriple) -> FaceIndexTriple
    recommends
        c.position >= 1,
        c.normal >= 1,
{
    FaceIndexTriple {
        position: (c.position - 1) as u32,
        texcoord: match c.texcoord {
            Some(t) => Some((t - 1) as u32),
            None => None,
        },
        normal: (c.normal - 1) as u32,
    }
}

pub open spec fn spec_convert_face(f: Face) -> Face {
    Face { a: spec_convert_corner(f.a), b: spec_convert_corner(f.b), c: spec_convert_corner(f.c) }
}

/// Fold one classified line into the document. `idx` is the line's 0-based
/// position, used only in errors. A face, material-use, or smoothing line
/// with no open object is a structural error; a face whose indices are not
/// within the pools declared so far is a reference error.
pub open spec fn spec_geom_step(e: FileEntityV, idx: int, st: DocV) -> Result<DocV, ParseError> {
    match e {
        FileEntityV::Vertex(t) => Ok(DocV { vertices: st.vertices.push(t), ..st }),
        FileEntityV::Normal(t) => Ok(DocV { normals: st.normals.push(t), ..st }),
        FileEntityV::TexCoord(t) => Ok(DocV { texcoords: st.texcoords.push(t), ..st }),
        FileEntityV::MatLib(n) => Ok(DocV { mtl_lib: Some(n), ..st }),
        FileEntityV::Object(n) => Ok(
            DocV {
                objects: st.objects.push(
                    ObjectV {
                        name: n,
                        material_name: None,
                        smoothing: None,
                        faces: Seq::<Face>::empty(),
                    },
                ),
                ..st
            },
        ),
        FileEntityV::Material(n) => {
            if st.objects.len() == 0 {
                Err(ParseError::StructuralError { line: idx as usize })
            } else {
                let last = st.objects.last();
                Ok(
                    DocV {
                        objects: st.objects.update(
                            st.objects.len() - 1,
                            ObjectV { material_name: Some(n), ..last },
                        ),
                        ..st
                    },
                )
            }
        },
        FileEntityV::Smoothing(b) => {
            if st.objects.len() == 0 {
                Err(ParseError::StructuralError { line: idx as usize })
            } else {
                let last = st.objects.last();
                Ok(
                    DocV {
                        objects: st.objects.update(
                            st.objects.len() - 1,
                            ObjectV { smoothing: Some(b), ..last },
                        ),
                        ..st
                    },
                )
            }
        },
        FileEntityV::FaceDef(f) => {
            if st.objects.len() == 0 {
                Err(ParseError::StructuralError { line: idx as usize })
            } else if !face_in_bounds(f, st.vertices.len(), st.normals.len()) {
                Err(ParseError::ReferenceError { line: idx as usize })
            } else {
                let last = st.objects.last();
                Ok(
                    DocV {
                        objects: st.objects.update(
                            st.objects.len() - 1,
                            ObjectV { faces: last.faces.push(spec_convert_face(f)), ..last },
                        ),
                        ..st
                    },
                )
            }
        },
        FileEntityV::Comment => Ok(st),
        FileEntityV::Ignore => Ok(st),
    }
}

/// Fold the records from index `i` on, starting from state `st`.
pub open spec fn spec_geom_fold(records: Seq<FileEntityV>, i: int, st: DocV) -> Result<
    DocV,
    ParseError,
>
    decreases records.len() - i,
{
    if i < 0 || i >= records.len() {
        Ok(st)
    } else {
        match spec_geom_step(records[i], i, st) {
            Err(e) => Err(e),
            Ok(st2) => spec_geom_fold(records, i + 1, st2),
        }
    }
}

/// Classify every line from index `i` on; the first mismatch positions the
/// grammar error.
pub open spec fn spec_classify_all_obj(lines: Seq<Seq<u8>>, i: int) -> Result<
    Seq<FileEntityV>,
    ParseError,
>
    decreases lines.len() - i,
{
    if i < 0 || i >= lines.len() {
        Ok(Seq::<FileEntityV>::empty())
    } else {
        match spec_classify_obj_line(lines[i]) {
            None => Err(ParseError::GrammarMismatch { line: i as usize }),
            Some(r) => match spec_classify_all_obj(lines, i + 1) {
                Err(e) => Err(e),
                Ok(rest) => Ok(seq![r] + rest),
            },
        }
    }
}

/// The whole geometry parse: split into lines, classify each line, fold the
/// records into a document.
pub open spec fn spec_parse_obj(s: Seq<u8>) -> Result<DocV, ParseError> {
    match spec_split_lines(s) {
        None => Err(ParseError::IncompleteInput),
        Some(lines) => match spec_classify_all_obj(lines, 0) {
            Err(e) => Err(e),
            Ok(records) => spec_geom_fold(records, 0, spec_empty_doc()),
        },
    }
}

/// Parse the complete text of a geometry document.
pub fn parse(input: &[u8]) -> (r: Result<WavefrontModelData, ParseError>)
    ensures
        match r {
            Ok(d) => spec_parse_obj(input@) == Ok::<DocV, ParseError>(d@),
            Err(e) => spec_parse_obj(input@) == Err::<DocV, ParseError>(e),
        },
{
    let lines = match split_lines(input) {
        Some(l) => l,
        None => { return Err(ParseError::IncompleteInput); },
    };
    let ghost lv = lines_view(lines@);
    let mut records: Vec<FileEntity> = Vec::new();
    let mut i: usize = 0;
    while i < lines.len()
        invariant
            i <= lines@.len(),
            lv == lines_view(lines@),
            spec_split_lines(input@) == Some(lv),
            spec_classify_all_obj(lv, 0) == match spec_classify_all_obj(lv, i as int) {
                Err(e) => Err::<Seq<FileEntityV>, ParseError>(e),
                Ok(rest) => Ok::<Seq<FileEntityV>, ParseError>(entities_view(records@) + rest),
            },
        decreases lines@.len() - i,
    {
        let ghost prev = records@;
        match classify_obj_line(lines[i].as_slice()) {
            None => {
                return Err(ParseError::GrammarMismatch { line: i });
            },
            Some(e) => {
                records.push(e);
                proof {
                    assert(entities_view(records@) =~= entities_view(prev) + seq![records@.last()@]);
                    match spec_classify_all_obj(lv, i + 1 as int) {
                        Result::Err(_) => {},
                        Result::Ok(rest) => {
                            assert(entities_view(prev) + (seq![records@.last()@] + rest)
                                =~= entities_view(records@) + rest);
                        },
                    }
                }
            },
        }
        i += 1;
    }
    proof {
        assert(entities_view(records@) + Seq::<FileEntityV>::empty() =~= entities_view(records@));
    }
    let ghost rv = entities_view(records@);
    let mut doc = WavefrontModelData {
        vertices: Vec::new(),
        normals: Vec::new(),
        texcoords: Vec::new(),
        objects: Vec::new(),
        mtl_lib: None,
    };
    proof {
        assert(doc@ =~= spec_empty_doc());
    }
    let mut k: usize = 0;
    while k < records.len()
        invariant
            k <= records@.len(),
            rv == entities_view(records@),
            spec_split_lines(input@) == Some(lv),
            spec_classify_all_obj(lv, 0) == Ok::<Seq<FileEntityV>, ParseError>(rv),
            spec_geom_fold(rv, 0, spec_empty_doc()) == spec_geom_fold(rv, k as int, doc@),
        decreases records@.len() - k,
    {
        let ghost st = doc@;
        let ent = &records[k];
        proof {
            assert(rv[k as int] == ent@);
        }
        match ent {
            FileEntity::Vertex(t) => {
                doc.vertices.push(t.duplicate());
                proof {
                    assert(doc@ =~= (DocV { vertices: st.vertices.push(t@), ..st }));
                }
            },
            FileEntity::Normal(t) => {
                doc.normals.push(t.duplicate());
                proof {
                    assert(doc@ =~= (DocV { normals: st.normals.push(t@), ..st }));
                }
            },
            FileEntity::TexCoord(t) => {
                doc.texcoords.push(t.duplicate());
                proof {
                    assert(doc@ =~= (DocV { texcoords: st.texcoords.push(t@), ..st }));
                }
            },
            FileEntity::MatLib(n) => {
                doc.mtl_lib = Some(dup_bytes(n));
                proof {
                    assert(doc@ =~= (DocV { mtl_lib: Some(n@), ..st }));
                }
            },
            FileEntity::Object(n) => {
                doc.objects.push(
                    WavefrontObject {
                        name: dup_bytes(n),
                        material_name: None,
                        smoothing: None,
                        faces: Vec::new(),
                    },
                );
                proof {
                    assert(doc@ =~= (DocV {
                        objects: st.objects.push(
                            ObjectV {
                                name: n@,
                                material_name: None,
                                smoothing: None,
                                faces: Seq::<Face>::empty(),
                            },
                        ),
                        ..st
                    }));
                }
            },
            FileEntity::Material(n) => {
                if doc.objects.len() == 0 {
                    return Err(ParseError::StructuralError { line: k });
                }
                let mut last = match doc.objects.pop() {
                    Some(o) => o,
                    None => { return Err(ParseError::StructuralError { line: k }); },
                };
                last.material_name = Some(dup_bytes(n));
                doc.objects.push(last);
                proof {
                    assert(doc@ =~= (DocV {
                        objects: st.objects.update(
                            st.objects.len() - 1,
                            ObjectV { material_name: Some(n@), ..st.objects.last() },
                        ),
                        ..st
                    }));
                }
            },
            FileEntity::Smoothing(b) => {
                if doc.objects.len() == 0 {
                    return Err(ParseError::StructuralError { line: k });
                }
                let mut last = match doc.objects.pop() {
                    Some(o) => o,
                    None => { return Err(ParseError::StructuralError { line: k }); },
                };
                last.smoothing = Some(*b);
                doc.objects.push(last);
                proof {
                    assert(doc@ =~= (DocV {
                        objects: st.objects.update(
                            st.objects.len() - 1,
                            ObjectV { smoothing: Some(*b), ..st.objects.last() },
                        ),
                        ..st
                    }));
                }
            },
            FileEntity::FaceDef(f) => {
                if doc.objects.len() == 0 {
                    return Err(ParseError::StructuralError { line: k });
                }
                let nv = doc.vertices.len();
                let nn = doc.normals.len();
                if !face_ok(f, nv, nn) {
                    return Err(ParseError::ReferenceError { line: k });
                }
                let converted = convert_face(f);
                let mut last = match doc.objects.pop() {
                    Some(o) => o,
                    None => { return Err(ParseError::StructuralError { line: k }); },
                };
                last.faces.push(converted);
                doc.objects.push(last);
                proof {
                    assert(doc@ =~= (DocV {
                        objects: st.objects.update(
                            st.objects.len() - 1,
                            ObjectV {
                                faces: st.objects.last().faces.push(spec_convert_face(*f)),
                                ..st.objects.last()
                            },
                        ),
                        ..st
                    }));
                }
            },
            FileEntity::Comment => {},
            FileEntity::Ignore => {},
        }
        k += 1;
    }
    Ok(doc)
}

/// A stored corner's 0-based offsets lie within the pools.
pub open spec fn stored_corner_in_bounds(c: FaceIndexTriple, nv: nat, nn: nat) -> bool {
    c.position < nv && c.normal < nn
}

pub open spec fn stored_face_in_bounds(f: Face, nv: nat, nn: nat) -> bool {
    stored_corner_in_bounds(f.a, nv, nn) && stored_corner_in_bounds(f.b, nv, nn)
        && stored_corner_in_bounds(f.c, nv, nn)
}

/// Every face stored in any object references the document's pools by valid
/// 0-based offsets: the invariant the aggregation pass maintains.
pub open spec fn doc_wf(d: DocV) -> bool {
    forall|k: int, j: int|
        0 <= k < d.objects.len() && 0 <= j < d.objects[k].faces.len() ==> stored_face_in_bounds(
            #[trigger] d.objects[k].faces[j],
            d.vertices.len(),
            d.normals.len(),
        )
}

proof fn lemma_geom_step_preserves_wf(e: FileEntityV, idx: int, st: DocV)
    requires
        doc_wf(st),
        spec_geom_step(e, idx, st) is Ok,
    ensures
        doc_wf(spec_geom_step(e, idx, st)->Ok_0),
{
    let st2 = spec_geom_step(e, idx, st)->Ok_0;
    assert forall|k: int, j: int|
        0 <= k < st2.objects.len() && 0 <= j < st2.objects[k].faces.len() implies
        stored_face_in_bounds(
        #[trigger] st2.objects[k].faces[j],
        st2.vertices.len(),
        st2.normals.len(),
    ) by {
        match e {
            FileEntityV::Object(_) => {
                if k < st.objects.len() {
                    assert(st2.objects[k] == st.objects[k]);
                }
            },
            FileEntityV::Material(_) => {
                if k < st.objects.len() - 1 {
                    assert(st2.objects[k] == st.objects[k]);
                } else {
                    assert(st2.objects[k].faces == st.objects[k].faces);
                }
            },
            FileEntityV::Smoothing(_) => {
                if k < st.objects.len() - 1 {
                    assert(st2.objects[k] == st.objects[k]);
                } else {
                    assert(st2.objects[k].faces == st.objects[k].faces);
                }
            },
            FileEntityV::FaceDef(f) => {
                if k < st.objects.len() - 1 {
                    assert(st2.objects[k] == st.objects[k]);
                } else {
                    if j < st.objects[k].faces.len() {
                        assert(st2.objects[k].faces[j] == st.objects[k].faces[j]);
                    } else {
                        assert(st2.objects[k].faces[j] == spec_convert_face(f));
                    }
                }
            },
            _ => {},
        }
    }
}

proof fn lemma_geom_fold_preserves_wf(records: Seq<FileEntityV>, i: int, st: DocV)
    requires
        doc_wf(st),
        spec_geom_fold(records, i, st) is Ok,
    ensures
        doc_wf(spec_geom_fold(records, i, st)->Ok_0),
    decreases records.len() - i,
{
    if 0 <= i < records.len() {
        lemma_geom_step_preserves_wf(records[i], i, st);
        lemma_geom_fold_preserves_wf(records, i + 1, spec_geom_step(records[i], i, st)->Ok_0);
    }
}

/// A successful parse yields a well-formed document: every stored face
/// index lies within the pools the document declares.
pub proof fn lemma_parse_obj_wf(s: Seq<u8>, d: DocV)
    requires
        spec_parse_obj(s) == Ok::<DocV, ParseError>(d),
    ensures
        doc_wf(d),
{
    let lines = spec_split_lines(s)->0;
    let records = spec_classify_all_obj(lines, 0)->Ok_0;
    lemma_geom_fold_preserves_wf(records, 0, spec_empty_doc());
}

/// While no object-start record has been folded yet, the objects stay
/// empty, and a face record is reached before any object opens: the fold
/// fails, and with a structural error.
proof fn lemma_geom_fold_face_without_object(
    records: Seq<FileEntityV>,
    i: int,
    k: int,
    st: DocV,
)
    requires
        0 <= i <= k < records.len(),
        records[k] is FaceDef,
        forall|j: int| i <= j < k ==> !(#[trigger] records[j] is Object),
        st.objects.len() == 0,
    ensures
        spec_geom_fold(records, i, st) is Err,
        spec_geom_fold(records, i, st)->Err_0 is StructuralError,
    decreases k - i,
{
    if i < k {
        match spec_geom_step(records[i], i, st) {
            Err(_) => {},
            Ok(st2) => {
                assert(st2.objects.len() == 0);
                lemma_geom_fold_face_without_object(records, i + 1, k, st2);
            },
        }
    }
}

/// A face line that stands before any object-start line makes the whole
/// parse fail with a structural error: no implicit object is ever created,
/// and the failure is not a grammar error.
pub proof fn lemma_face_before_object_fails(
    s: Seq<u8>,
    lines: Seq<Seq<u8>>,
    records: Seq<FileEntityV>,
    k: int,
)
    requires
        spec_split_lines(s) == Some(lines),
        spec_classify_all_obj(lines, 0) == Ok::<Seq<FileEntityV>, ParseError>(records),
        0 <= k < records.len(),
        records[k] is FaceDef,
        forall|j: int| 0 <= j < k ==> !(#[trigger] records[j] is Object),
    ensures
        spec_parse_obj(s) is Err,
        spec_parse_obj(s)->Err_0 is StructuralError,
{
    lemma_geom_fold_face_without_object(records, 0, k, spec_empty_doc());
}

/// The geometry parse is a pure function of the input bytes: any two
/// results the parse contract admits for one buffer are equal, so parsing
/// the same buffer twice yields structurally equal documents.
pub proof fn lemma_parse_obj_deterministic(
    input: Seq<u8>,
    r1: Result<DocV, ParseError>,
    r2: Result<DocV, ParseError>,
)
    requires
        r1 == spec_parse_obj(input),
        r2 == spec_parse_obj(input),
    ensures
        r1 == r2,
{
}

/// Check a face's 1-based indices against the current pool sizes.
fn face_ok(f: &Face, nv: usize, nn: usize) -> (r: bool)
    ensures
        r == face_in_bounds(*f, nv as nat, nn as nat),
{
    corner_ok(&f.a, nv, nn) && corner_ok(&f.b, nv, nn) && corner_ok(&f.c, nv, nn)
}

fn corner_ok(c: &FaceIndexTriple, nv: usize, nn: usize) -> (r: bool)
    ensures
        r == corner_in_bounds(*c, nv as nat, nn as nat),
{
    1 <= c.position && c.position as usize <= nv && 1 <= c.normal && c.normal as usize <= nn
        && match c.texcoord {
        Some(t) => t >= 1,
        None => true,
    }
}

fn convert_face(f: &Face) -> (r: Face)
    requires
        f.a.position >= 1,
        f.a.normal >= 1,
        f.b.position >= 1,
        f.b.normal >= 1,
        f.c.position >= 1,
        f.c.normal >= 1,
        f.a.texcoord matches Some(t) ==> t >= 1,
        f.b.texcoord matches Some(t) ==> t >= 1,
        f.c.texcoord matches Some(t) ==> t >= 1,
    ensures
        r == spec_convert_face(*f),
{
    Face { a: convert_corner(&f.a), b: convert_corner(&f.b), c: convert_corner(&f.c) }
}

fn convert_corner(c: &FaceIndexTriple) -> (r: FaceIndexTriple)
    requires
        c.position >= 1,
        c.normal >= 1,
        c.texcoord matches Some(t) ==> t >= 1,
    ensures
        r == spec_convert_corner(*c),
{
    FaceIndexTriple {
        position: c.position - 1,
        texcoord: match c.texcoord {
            Some(t) => Some(t - 1),
            None => None,
        },
        normal: c.normal - 1,
    }
}

} // verus!
