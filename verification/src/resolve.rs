//! The model resolver: joins a parsed geometry document with an optional
//! material table, flattening each object's index-based faces into a
//! dereferenced vertex sequence paired with its resolved material.

use vstd::prelude::*;

use crate::lexer::{Triple, TripleV, ScalarV};
use crate::obj::{Face, FaceIndexTriple, WavefrontModelData, DocV, ObjectV};
use crate::mtl::{MaterialTable, WavefrontMaterial, MaterialV};

verus! {

/// How resolution can fail: a stored face index lies outside its pool.
/// Indices are never clamped and missing vertices are never defaulted.
#[derive(Clone, Copy, Debug, PartialEq, Eq, Structural)]
pub enum ResolveError {
    OutOfRange,
}

/// One render-ready vertex: a position paired with a normal.
#[derive(Clone, Debug, PartialEq, Eq)]
pub struct BufferVertex {
    pub position: Triple,
    pub normal: Triple,
}

/// Mathematical model of a `BufferVertex`.
#[verifier::ext_equal]
pub ghost struct BufferVertexV {
    pub position: TripleV,
    pub normal: TripleV,
}

impl View for BufferVertex {
    type V = BufferVertexV;

    open spec fn view(&self) -> BufferVertexV {
        BufferVertexV { position: self.position@, normal: self.normal@ }
    }
}

/// A geometry document together with the material table named by its
/// material-library reference, if one could be read.
#[derive(Clone, Debug, PartialEq, Eq)]
pub struct WavefrontModel {
    pub data: WavefrontModelData,
    pub materials: Option<MaterialTable>,
}

/// Mathematical model of a `WavefrontModel`.
#[verifier::ext_equal]
pub ghost struct ModelV {
    pub data: DocV,
    pub materials: Option<Map<Seq<u8>, MaterialV>>,
}

impl View for WavefrontModel {
    type V = ModelV;

    open spec fn view(&self) -> ModelV {
        ModelV {
            data: self.data@,
            materials: match self.materials {
                Some(t) => Some(t@),
                None => None,
            },
        }
    }
}

impl WavefrontModel {
    /// Pair a parsed geometry document with an optional material table.
    pub fn new(data: WavefrontModelData, materials: Option<MaterialTable>) -> (r: WavefrontModel)
        ensures
            r.data == data,
            r.materials == materials,
    {
        WavefrontModel { data, materials }
    }
}

/// Dereference one face corner against the pools; `None` if either 0-based
/// index is out of range.
pub open spec fn spec_flatten_corner(c: FaceIndexTriple, vs: Seq<TripleV>, ns: Seq<TripleV>)
    -> Option<BufferVertexV> {
    if c.position < vs.len() && c.normal < ns.len() {
        Some(BufferVertexV { position: vs[c.position as int], normal: ns[c.normal as int] })
    } else {
        None
    }
}

/// Dereference one face: its three corners in order.
pub open spec fn spec_flatten_face(f: Face, vs: Seq<TripleV>, ns: Seq<TripleV>) -> Option<
    Seq<BufferVertexV>,
> {
    match (spec_flatten_corner(f.a, vs, ns), spec_flatten_corner(f.b, vs, ns), spec_flatten_corner(
        f.c,
        vs,
        ns,
    )) {
        (Some(va), Some(vb), Some(vc)) => Some(seq![va, vb, vc]),
        _ => None,
    }
}

/// Dereference the faces from index `i` on, in face order.
pub open spec fn spec_flatten_faces(faces: Seq<Face>, i: int, vs: Seq<TripleV>, ns: Seq<TripleV>)
    -> Option<Seq<BufferVertexV>>
    decreases faces.len() - i,
{
    if i < 0 || i >= faces.len() {
        Some(Seq::<BufferVertexV>::empty())
    } else {
        match spec_flatten_face(faces[i], vs, ns) {
            None => None,
            Some(three) => match spec_flatten_faces(faces, i + 1, vs, ns) {
                None => None,
                Some(rest) => Some(three + rest),
            },
        }
    }
}

/// The built-in default material's name.
pub open spec fn spec_default_material_name() -> Seq<u8> {
    seq![
        0x44u8,
        0x65,
        0x66,
        0x61,
        0x75,
        0x6c,
        0x74,
        0x20,
        0x6d,
        0x61,
        0x74,
        0x65,
        0x72,
        0x69,
        0x61,
        0x6c,
    ]
}

/// The built-in default material: exponent `1.0`, ambient and diffuse
/// `(1.0, 0.0, 0.0)`, specular `(0.7, 0.7, 0.7)`.
pub open spec fn spec_default_material() -> MaterialV {
    let one = ScalarV { neg: false, int_digits: seq![0x31u8], frac_digits: seq![0x30u8] };
    let zero = ScalarV { neg: false, int_digits: seq![0x30u8], frac_digits: seq![0x30u8] };
    let seven_tenths = ScalarV { neg: false, int_digits: seq![0x30u8], frac_digits: seq![0x37u8] };
    MaterialV {
        name: spec_default_material_name(),
        specular_exponent: one,
        ambient: TripleV { x: one, y: zero, z: zero },
        diffuse: TripleV { x: one, y: zero, z: zero },
        specular: TripleV { x: seven_tenths, y: seven_tenths, z: seven_tenths },
    }
}

/// The material bound to an object: the table's entry for the object's
/// material name, or the default material when the object has no binding,
/// no table was supplied, or the name is absent from the table.
pub open spec fn spec_resolve_material(obj: ObjectV, mats: Option<Map<Seq<u8>, MaterialV>>)
    -> MaterialV {
    match (obj.material_name, mats) {
        (Some(n), Some(t)) => if t.contains_key(n) {
            t[n]
        } else {
            spec_default_material()
        },
        _ => spec_default_material(),
    }
}

/// Resolve the objects from index `i` on: each object's flattened vertex
/// sequence paired with its resolved material, in document order.
pub open spec fn spec_resolve_objects(
    objs: Seq<ObjectV>,
    i: int,
    vs: Seq<TripleV>,
    ns: Seq<TripleV>,
    mats: Option<Map<Seq<u8>, MaterialV>>,
) -> Option<Seq<(Seq<BufferVertexV>, MaterialV)>>
    decreases objs.len() - i,
{
    if i < 0 || i >= objs.len() {
        Some(Seq::<(Seq<BufferVertexV>, MaterialV)>::empty())
    } else {
        match spec_flatten_faces(objs[i].faces, 0, vs, ns) {
            None => None,
            Some(verts) => match spec_resolve_objects(objs, i + 1, vs, ns, mats) {
                None => None,
                Some(rest) => Some(seq![(verts, spec_resolve_material(objs[i], mats))] + rest),
            },
        }
    }
}

/// The whole resolution pass over a model.
pub open spec fn spec_to_vertices(m: ModelV) -> Option<Seq<(Seq<BufferVertexV>, MaterialV)>> {
    spec_resolve_objects(m.data.objects, 0, m.data.vertices, m.data.normals, m.materials)
}

pub open spec fn buffer_vertices_view(s: Seq<BufferVertex>) -> Seq<BufferVertexV> {
    s.map_values(|b: BufferVertex| b@)
}

pub open spec fn resolved_view(s: Seq<(Vec<BufferVertex>, WavefrontMaterial)>) -> Seq<
    (Seq<BufferVertexV>, MaterialV),
> {
    s.map_values(|p: (Vec<BufferVertex>, WavefrontMaterial)| (buffer_vertices_view(p.0@), p.1@))
}

/// A face whose 1-based indices all reference already-declared pool
/// entries, once converted to 0-based offsets, flattens to exactly three
/// vertices: the pool entries at each index minus one, in corner order.
pub proof fn lemma_face_vertices(f: Face, vs: Seq<TripleV>, ns: Seq<TripleV>)
    requires
        crate::obj::face_in_bounds(f, vs.len(), ns.len()),
    ensures
        spec_flatten_face(crate::obj::spec_convert_face(f), vs, ns) == Some(
            seq![
                BufferVertexV { position: vs[f.a.position - 1], normal: ns[f.a.normal - 1] },
                BufferVertexV { position: vs[f.b.position - 1], normal: ns[f.b.normal - 1] },
                BufferVertexV { position: vs[f.c.position - 1], normal: ns[f.c.normal - 1] },
            ],
        ),
{
}

/// An object bound to a name absent from the table, or with no binding, or
/// resolved without a table, gets exactly the built-in default material.
pub proof fn lemma_missing_material_defaults(obj: ObjectV, mats: Option<Map<Seq<u8>, MaterialV>>)
    requires
        match (obj.material_name, mats) {
            (Some(n), Some(t)) => !t.contains_key(n),
            _ => true,
        },
    ensures
        spec_resolve_material(obj, mats) == spec_default_material(),
{
}

/// A successful flattening of an object's faces holds exactly three
/// vertices per face, and the segment for face `j` is that face's own
/// flattening.
pub proof fn lemma_flatten_faces_elems(
    faces: Seq<Face>,
    i: int,
    vs: Seq<TripleV>,
    ns: Seq<TripleV>,
    ws: Seq<BufferVertexV>,
)
    requires
        0 <= i <= faces.len(),
        spec_flatten_faces(faces, i, vs, ns) == Some(ws),
    ensures
        ws.len() == 3 * (faces.len() - i),
        forall|j: int| i <= j < faces.len() ==> #[trigger] spec_flatten_face(faces[j], vs, ns)
            is Some,
        forall|j: int| i <= j < faces.len() ==> ws.subrange(3 * (j - i), 3 * (j - i) + 3)
            == #[trigger] spec_flatten_face(faces[j], vs, ns)->0,
    decreases faces.len() - i,
{
    if i < faces.len() {
        let three = spec_flatten_face(faces[i], vs, ns)->0;
        let rest = spec_flatten_faces(faces, i + 1, vs, ns)->0;
        lemma_flatten_faces_elems(faces, i + 1, vs, ns, rest);
        assert(ws == three + rest);
        assert(three.len() == 3);
        assert forall|j: int| i <= j < faces.len() implies ws.subrange(
            3 * (j - i),
            3 * (j - i) + 3,
        ) == #[trigger] spec_flatten_face(faces[j], vs, ns)->0 by {
            if j == i {
                assert(ws.subrange(0, 3) =~= three);
            } else {
                assert(ws.subrange(3 * (j - i), 3 * (j - i) + 3) =~= rest.subrange(
                    3 * (j - i - 1),
                    3 * (j - i - 1) + 3,
                ));
            }
        }
    }
}

proof fn lemma_resolve_objects_elems(
    objs: Seq<ObjectV>,
    i: int,
    vs: Seq<TripleV>,
    ns: Seq<TripleV>,
    mats: Option<Map<Seq<u8>, MaterialV>>,
    out: Seq<(Seq<BufferVertexV>, MaterialV)>,
)
    requires
        0 <= i <= objs.len(),
        spec_resolve_objects(objs, i, vs, ns, mats) == Some(out),
    ensures
        out.len() == objs.len() - i,
        forall|k: int| i <= k < objs.len() ==> #[trigger] spec_flatten_faces(
            objs[k].faces,
            0,
            vs,
            ns,
        ) is Some,
        forall|k: int| i <= k < objs.len() ==> out[k - i] == (
            spec_flatten_faces(objs[k].faces, 0, vs, ns)->0,
            spec_resolve_material(#[trigger] objs[k], mats),
        ),
    decreases objs.len() - i,
{
    if i < objs.len() {
        let rest = spec_resolve_objects(objs, i + 1, vs, ns, mats)->0;
        lemma_resolve_objects_elems(objs, i + 1, vs, ns, mats, rest);
    }
}

/// A successful resolution yields one entry per object, in document order:
/// the object's flattened faces paired with its resolved material.
pub proof fn lemma_to_vertices_objects(m: ModelV, out: Seq<(Seq<BufferVertexV>, MaterialV)>)
    requires
        spec_to_vertices(m) == Some(out),
    ensures
        out.len() == m.data.objects.len(),
        forall|k: int| 0 <= k < m.data.objects.len() ==> #[trigger] spec_flatten_faces(
            m.data.objects[k].faces,
            0,
            m.data.vertices,
            m.data.normals,
        ) is Some,
        forall|k: int| 0 <= k < m.data.objects.len() ==> out[k] == (
            spec_flatten_faces(m.data.objects[k].faces, 0, m.data.vertices, m.data.normals)->0,
            spec_resolve_material(#[trigger] m.data.objects[k], m.materials),
        ),
{
    lemma_resolve_objects_elems(
        m.data.objects,
        0,
        m.data.vertices,
        m.data.normals,
        m.materials,
        out,
    );
}

proof fn lemma_flatten_faces_total(faces: Seq<Face>, i: int, vs: Seq<TripleV>, ns: Seq<TripleV>)
    requires
        0 <= i <= faces.len(),
        forall|j: int| i <= j < faces.len() ==> crate::obj::stored_face_in_bounds(
            #[trigger] faces[j],
            vs.len(),
            ns.len(),
        ),
    ensures
        spec_flatten_faces(faces, i, vs, ns) is Some,
    decreases faces.len() - i,
{
    if i < faces.len() {
        lemma_flatten_faces_total(faces, i + 1, vs, ns);
    }
}

proof fn lemma_resolve_objects_total(
    objs: Seq<ObjectV>,
    i: int,
    vs: Seq<TripleV>,
    ns: Seq<TripleV>,
    mats: Option<Map<Seq<u8>, MaterialV>>,
)
    requires
        0 <= i <= objs.len(),
        forall|k: int, j: int|
            i <= k < objs.len() && 0 <= j < objs[k].faces.len()
                ==> crate::obj::stored_face_in_bounds(
                #[trigger] objs[k].faces[j],
                vs.len(),
                ns.len(),
            ),
    ensures
        spec_resolve_objects(objs, i, vs, ns, mats) is Some,
    decreases objs.len() - i,
{
    if i < objs.len() {
        lemma_flatten_faces_total(objs[i].faces, 0, vs, ns);
        lemma_resolve_objects_total(objs, i + 1, vs, ns, mats);
    }
}

/// A document that came out of the geometry parse resolves under any
/// material table: the aggregation pass has already checked every face
/// index against the pools, so flattening never goes out of range.
pub proof fn lemma_parsed_documents_resolve(
    s: Seq<u8>,
    d: DocV,
    mats: Option<Map<Seq<u8>, MaterialV>>,
)
    requires
        crate::obj::spec_parse_obj(s) == Ok::<DocV, crate::ParseError>(d),
    ensures
        spec_to_vertices(ModelV { data: d, materials: mats }) is Some,
{
    crate::obj::lemma_parse_obj_wf(s, d);
    lemma_resolve_objects_total(d.objects, 0, d.vertices, d.normals, mats);
}

/// The built-in default material.
pub fn default_material() -> (r: WavefrontMaterial)
    ensures
        r@ == spec_default_material(),
{
    let mut name: Vec<u8> = Vec::new();
    name.push(0x44);
    name.push(0x65);
    name.push(0x66);
    name.push(0x61);
    name.push(0x75);
    name.push(0x6c);
    name.push(0x74);
    name.push(0x20);
    name.push(0x6d);
    name.push(0x61);
    name.push(0x74);
    name.push(0x65);
    name.push(0x72);
    name.push(0x69);
    name.push(0x61);
    name.push(0x6c);
    proof {
        assert(name@ =~= spec_default_material_name());
    }
    let m = WavefrontMaterial {
        name,
        specular_exponent: simple_scalar(0x31, 0x30),
        ambient: Triple {
            x: simple_scalar(0x31, 0x30),
            y: simple_scalar(0x30, 0x30),
            z: simple_scalar(0x30, 0x30),
        },
        diffuse: Triple {
            x: simple_scalar(0x31, 0x30),
            y: simple_scalar(0x30, 0x30),
            z: simple_scalar(0x30, 0x30),
        },
        specular: Triple {
            x: simple_scalar(0x30, 0x37),
            y: simple_scalar(0x30, 0x37),
            z: simple_scalar(0x30, 0x37),
        },
    };
    proof {
        assert(m@ =~= spec_default_material());
    }
    m
}

/// A scalar with one integer digit and one fractional digit.
fn simple_scalar(int_digit: u8, frac_digit: u8) -> (r: crate::lexer::Scalar)
    ensures
        r@ == (ScalarV {
            neg: false,
            int_digits: seq![int_digit],
            frac_digits: seq![frac_digit],
        }),
{
    let mut zi: Vec<u8> = Vec::new();
    zi.push(int_digit);
    let mut zf: Vec<u8> = Vec::new();
    zf.push(frac_digit);
    proof {
        assert(zi@ =~= seq![int_digit]);
        assert(zf@ =~= seq![frac_digit]);
    }
    crate::lexer::Scalar { neg: false, int_digits: zi, frac_digits: zf }
}

impl WavefrontModel {
    /// Flatten every object of the model in document order: for each face,
    /// its three corners dereferenced against the position and normal pools,
    /// paired with the object's resolved material. A stored index outside
    /// its pool is a hard error.
    pub fn to_vertices(&self) -> (r: Result<
        Vec<(Vec<BufferVertex>, WavefrontMaterial)>,
        ResolveError,
    >)
        ensures
            match r {
                Ok(v) => spec_to_vertices(self@) == Some(resolved_view(v@)),
                Err(e) => spec_to_vertices(self@) is None && e == ResolveError::OutOfRange,
            },
    {
        let ghost objs = self@.data.objects;
        let ghost vs = self@.data.vertices;
        let ghost ns = self@.data.normals;
        let ghost mats = self@.materials;
        let mut out: Vec<(Vec<BufferVertex>, WavefrontMaterial)> = Vec::new();
        let mut oi: usize = 0;
        while oi < self.data.objects.len()
            invariant
                oi <= self.data.objects@.len(),
                objs == self@.data.objects,
                vs == self@.data.vertices,
                ns == self@.data.normals,
                mats == self@.materials,
                spec_resolve_objects(objs, 0, vs, ns, mats) == match spec_resolve_objects(
                    objs,
                    oi as int,
                    vs,
                    ns,
                    mats,
                ) {
                    None => None::<Seq<(Seq<BufferVertexV>, MaterialV)>>,
                    Some(rest) => Some(resolved_view(out@) + rest),
                },
            decreases self.data.objects@.len() - oi,
        {
            let obj = &self.data.objects[oi];
            proof {
                assert(objs[oi as int] == obj@);
            }
            let mut verts: Vec<BufferVertex> = Vec::new();
            let mut fi: usize = 0;
            while fi < obj.faces.len()
                invariant
                    fi <= obj.faces@.len(),
                    vs == self@.data.vertices,
                    ns == self@.data.normals,
                    mats == self@.materials,
                    objs == self@.data.objects,
                    oi < objs.len(),
                    objs[oi as int] == obj@,
                    spec_resolve_objects(objs, 0, vs, ns, mats) == match spec_resolve_objects(
                        objs,
                        oi as int,
                        vs,
                        ns,
                        mats,
                    ) {
                        None => None::<Seq<(Seq<BufferVertexV>, MaterialV)>>,
                        Some(rest) => Some(resolved_view(out@) + rest),
                    },
                    spec_flatten_faces(obj.faces@, 0, vs, ns) == match spec_flatten_faces(
                        obj.faces@,
                        fi as int,
                        vs,
                        ns,
                    ) {
                        None => None::<Seq<BufferVertexV>>,
                        Some(rest) => Some(buffer_vertices_view(verts@) + rest),
                    },
                decreases obj.faces@.len() - fi,
            {
                let f = obj.faces[fi];
                proof {
                    assert(obj.faces@[fi as int] == f);
                    if spec_flatten_face(f, vs, ns) is None {
                        assert(spec_flatten_faces(obj.faces@, fi as int, vs, ns) is None);
                        assert(spec_flatten_faces(obj.faces@, 0, vs, ns) is None);
                        assert(spec_resolve_objects(objs, oi as int, vs, ns, mats) is None);
                        assert(spec_resolve_objects(objs, 0, vs, ns, mats) is None);
                    }
                }
                let va = match self.flatten_corner(&f.a) {
                    Some(v) => v,
                    None => { return Err(ResolveError::OutOfRange); },
                };
                let vb = match self.flatten_corner(&f.b) {
                    Some(v) => v,
                    None => { return Err(ResolveError::OutOfRange); },
                };
                let vc = match self.flatten_corner(&f.c) {
                    Some(v) => v,
                    None => { return Err(ResolveError::OutOfRange); },
                };
                let ghost prev = verts@;
                verts.push(va);
                verts.push(vb);
                verts.push(vc);
                proof {
                    assert(buffer_vertices_view(verts@) =~= buffer_vertices_view(prev)
                        + spec_flatten_face(obj.faces@[fi as int], vs, ns)->0);
                    match spec_flatten_faces(obj.faces@, fi + 1 as int, vs, ns) {
                        None => {},
                        Some(rest) => {
                            assert(buffer_vertices_view(prev) + (spec_flatten_face(
                                obj.faces@[fi as int],
                                vs,
                                ns,
                            )->0 + rest) =~= buffer_vertices_view(verts@) + rest);
                        },
                    }
                }
                fi += 1;
            }
            proof {
                assert(buffer_vertices_view(verts@) + Seq::<BufferVertexV>::empty()
                    =~= buffer_vertices_view(verts@));
            }
            let mat = self.resolve_material(obj);
            let ghost prev_out = out@;
            out.push((verts, mat));
            proof {
                assert(resolved_view(out@) =~= resolved_view(prev_out)
                    + seq![(buffer_vertices_view(out@.last().0@), out@.last().1@)]);
                match spec_resolve_objects(objs, oi + 1 as int, vs, ns, mats) {
                    None => {},
                    Some(rest) => {
                        assert(resolved_view(prev_out) + (seq![
                            (
                                spec_flatten_faces(objs[oi as int].faces, 0, vs, ns)->0,
                                spec_resolve_material(objs[oi as int], mats),
                            ),
                        ] + rest) =~= resolved_view(out@) + rest);
                    },
                }
            }
            oi += 1;
        }
        proof {
            assert(resolved_view(out@) + Seq::<(Seq<BufferVertexV>, MaterialV)>::empty()
                =~= resolved_view(out@));
        }
        Ok(out)
    }

    /// Dereference one corner against the model's pools.
    fn flatten_corner(&self, c: &FaceIndexTriple) -> (r: Option<BufferVertex>)
        ensures
            match r {
                Some(v) => spec_flatten_corner(*c, self@.data.vertices, self@.data.normals)
                    == Some(v@),
                None => spec_flatten_corner(*c, self@.data.vertices, self@.data.normals) is None,
            },
    {
        if (c.position as usize) < self.data.vertices.len() && (c.normal as usize)
            < self.data.normals.len() {
            let position = self.data.vertices[c.position as usize].duplicate();
            let normal = self.data.normals[c.normal as usize].duplicate();
            Some(BufferVertex { position, normal })
        } else {
            None
        }
    }

    /// The material bound to an object, falling back to the default.
    fn resolve_material(&self, obj: &crate::obj::WavefrontObject) -> (r: WavefrontMaterial)
        ensures
            r@ == spec_resolve_material(obj@, self@.materials),
    {
        match &obj.material_name {
            Some(n) => match &self.materials {
                Some(t) => match t.get(n.as_slice()) {
                    Some(m) => m.duplicate(),
                    None => default_material(),
                },
                None => default_material(),
            },
            None => default_material(),
        }
    }
}

} // verus!
