//! Material libraries: the line grammar, the aggregation pass, and the
//! name-keyed material table.
//!
//! A material-library file opens materials with `newmtl` and assigns their
//! ambient, diffuse and specular color triples and specular exponent; every
//! other line is ignorable. The aggregation pass folds the classified lines
//! into a `MaterialTable`, where a later definition of a name overwrites an
//! earlier one.

use vstd::prelude::*;

use crate::ParseError;
use crate::lexer::{
    Scalar, ScalarV, Triple, TripleV, space_run_end, token_run_end, spec_scan_scalar,
    spec_split_lines, spec_zero_scalar, lines_view, advance_token, advance_spaces, scan_scalar,
    split_lines, bytes_eq, dup_bytes,
};
use crate::obj::{spec_triple_rest, spec_name_rest, triple_rest, name_rest};

verus! {

/// A named surface material: reflectance color triples and a specular
/// exponent. Fields default to zero until a line assigns them.
#[derive(Clone, Debug, PartialEq, Eq)]
pub struct WavefrontMaterial {
    pub name: Vec<u8>,
    pub specular_exponent: Scalar,
    pub ambient: Triple,
    pub diffuse: Triple,
    pub specular: Triple,
}

/// Mathematical model of a `WavefrontMaterial`.
#[verifier::ext_equal]
pub ghost struct MaterialV {
    pub name: Seq<u8>,
    pub specular_exponent: ScalarV,
    pub ambient: TripleV,
    pub diffuse: TripleV,
    pub specular: TripleV,
}

impl View for WavefrontMaterial {
    type V = MaterialV;

    open spec fn view(&self) -> MaterialV {
        MaterialV {
            name: self.name@,
            specular_exponent: self.specular_exponent@,
            ambient: self.ambient@,
            diffuse: self.diffuse@,
            specular: self.specular@,
        }
    }
}

impl WavefrontMaterial {
    /// An owned copy with the same content.
    pub fn duplicate(&self) -> (r: WavefrontMaterial)
        ensures
            r@ == self@,
    {
        WavefrontMaterial {
            name: dup_bytes(&self.name),
            specular_exponent: self.specular_exponent.duplicate(),
            ambient: self.ambient.duplicate(),
            diffuse: self.diffuse.duplicate(),
            specular: self.specular.duplicate(),
        }
    }
}

pub open spec fn materials_view(s: Seq<WavefrontMaterial>) -> Seq<MaterialV> {
    s.map_values(|m: WavefrontMaterial| m@)
}

/// One classified line of a material-library document.
#[derive(Clone, Debug, PartialEq, Eq)]
pub enum MtlEntity {
    Name(Vec<u8>),
    Ambient(Triple),
    Diffuse(Triple),
    Specular(Triple),
    Exponent(Scalar),
    Ignore,
}

/// Mathematical model of a `MtlEntity`.
pub ghost enum MtlEntityV {
    Name(Seq<u8>),
    Ambient(TripleV),
    Diffuse(TripleV),
    Specular(TripleV),
    Exponent(ScalarV),
    Ignore,
}

impl View for MtlEntity {
    type V = MtlEntityV;

    open spec fn view(&self) -> MtlEntityV {
        match self {
            MtlEntity::Name(n) => MtlEntityV::Name(n@),
            MtlEntity::Ambient(t) => MtlEntityV::Ambient(t@),
            MtlEntity::Diffuse(t) => MtlEntityV::Diffuse(t@),
            MtlEntity::Specular(t) => MtlEntityV::Specular(t@),
            MtlEntity::Exponent(s) => MtlEntityV::Exponent(s@),
            MtlEntity::Ignore => MtlEntityV::Ignore,
        }
    }
}

pub open spec fn mtl_entities_view(s: Seq<MtlEntity>) -> Seq<MtlEntityV> {
    s.map_values(|e: MtlEntity| e@)
}

/// Rest of an `Ns` line: mandatory blanks, one scalar, the end of the line.
pub open spec fn spec_scalar_rest(line: Seq<u8>, t: int) -> Option<ScalarV>
    recommends
        0 <= t <= line.len(),
{
    let p = space_run_end(line, t);
    if p == t {
        None
    } else {
        match spec_scan_scalar(line, p) {
            None => None,
            Some((sc, e)) => if e == line.len() {
                Some(sc)
            } else {
                None
            },
        }
    }
}

fn scalar_rest(line: &[u8], t: usize) -> (r: Option<Scalar>)
    requires
        t <= line@.len(),
    ensures
        match r {
            Some(sc) => spec_scalar_rest(line@, t as int) == Some(sc@),
            None => spec_scalar_rest(line@, t as int) is None,
        },
{
    let p = advance_spaces(line, t);
    if p == t {
        return None;
    }
    match scan_scalar(line, p) {
        None => None,
        Some((sc, e)) => if e == line.len() {
            Some(sc)
        } else {
            None
        },
    }
}

/// Classify one material-library line. A line whose leading blank-delimited
/// token is `newmtl`, `Ns`, `Ka`, `Kd` or `Ks` must match that production in
/// full, else the line is a grammar mismatch (`None`); every other line
/// (dissolution, illumination model, texture maps, comments, blanks) is
/// ignorable.
pub open spec fn spec_classify_mtl_line(line: Seq<u8>) -> Option<MtlEntityV> {
    let t = token_run_end(line, 0);
    if t == 6 && line[0] == 0x6e && line[1] == 0x65 && line[2] == 0x77 && line[3] == 0x6d
        && line[4] == 0x74 && line[5] == 0x6c {
        // `newmtl`
        match spec_name_rest(line, t) {
            Some(n) => Some(MtlEntityV::Name(n)),
            None => None,
        }
    } else if t == 2 && line[0] == 0x4e && line[1] == 0x73 {
        // `Ns`
        match spec_scalar_rest(line, t) {
            Some(sc) => Some(MtlEntityV::Exponent(sc)),
            None => None,
        }
    } else if t == 2 && line[0] == 0x4b && line[1] == 0x61 {
        // `Ka`
        match spec_triple_rest(line, t) {
            Some(tr) => Some(MtlEntityV::Ambient(tr)),
            None => None,
        }
    } else if t == 2 && line[0] == 0x4b && line[1] == 0x64 {
        // `Kd`
        match spec_triple_rest(line, t) {
            Some(tr) => Some(MtlEntityV::Diffuse(tr)),
            None => None,
        }
    } else if t == 2 && line[0] == 0x4b && line[1] == 0x73 {
        // `Ks`
        match spec_triple_rest(line, t) {
            Some(tr) => Some(MtlEntityV::Specular(tr)),
            None => None,
        }
    } else {
        Some(MtlEntityV::Ignore)
    }
}

/// Classify one material-library line; `None` is a grammar mismatch.
pub fn classify_mtl_line(line: &[u8]) -> (r: Option<MtlEntity>)
    ensures
        match r {
            Some(e) => spec_classify_mtl_line(line@) == Some(e@),
            None => spec_classify_mtl_line(line@) is None,
        },
{
    let t = advance_token(line, 0);
    if t == 6 && line[0] == 0x6e && line[1] == 0x65 && line[2] == 0x77 && line[3] == 0x6d
        && line[4] == 0x74 && line[5] == 0x6c {
        // `newmtl`
        match name_rest(line, t) {
            Some(n) => Some(MtlEntity::Name(n)),
            None => None,
        }
    } else if t == 2 && line[0] == 0x4e && line[1] == 0x73 {
        // `Ns`
        match scalar_rest(line, t) {
            Some(sc) => Some(MtlEntity::Exponent(sc)),
            None => None,
        }
    } else if t == 2 && line[0] == 0x4b && line[1] == 0x61 {
        // `Ka`
        match triple_rest(line, t) {
            Some(tr) => Some(MtlEntity::Ambient(tr)),
            None => None,
        }
    } else if t == 2 && line[0] == 0x4b && line[1] == 0x64 {
        // `Kd`
        match triple_rest(line, t) {
            Some(tr) => Some(MtlEntity::Diffuse(tr)),
            None => None,
        }
    } else if t == 2 && line[0] == 0x4b && line[1] == 0x73 {
        // `Ks`
        match triple_rest(line, t) {
            Some(tr) => Some(MtlEntity::Specular(tr)),
            None => None,
        }
    } else {
        Some(MtlEntity::Ignore)
    }
}

/// A name-keyed table of materials; a later entry for a name overrides an
/// earlier one, so the table's mathematical content is a map.
#[derive(Clone, Debug, PartialEq, Eq)]
pub struct MaterialTable {
    entries: Vec<WavefrontMaterial>,
}

/// The map content of a run of entries: each entry inserted in order.
pub open spec fn entries_map(s: Seq<MaterialV>) -> Map<Seq<u8>, MaterialV>
    decreases s.len(),
{
    if s.len() == 0 {
        Map::<Seq<u8>, MaterialV>::empty()
    } else {
        entries_map(s.drop_last()).insert(s.last().name, s.last())
    }
}

impl View for MaterialTable {
    type V = Map<Seq<u8>, MaterialV>;

    closed spec fn view(&self) -> Map<Seq<u8>, MaterialV> {
        entries_map(materials_view(self.entries@))
    }
}

impl MaterialTable {
    /// An empty table.
    pub fn new() -> (r: MaterialTable)
        ensures
            r@ == Map::<Seq<u8>, MaterialV>::empty(),
    {
        MaterialTable { entries: Vec::new() }
    }

    /// Add a material under its name, overriding any earlier definition.
    pub fn insert(&mut self, m: WavefrontMaterial)
        ensures
            final(self)@ == old(self)@.insert(m.name@, m@),
    {
        let ghost prev = materials_view(self.entries@);
        self.entries.push(m);
        proof {
            assert(materials_view(self.entries@).drop_last() =~= prev);
            assert(materials_view(self.entries@).last() == self.entries@.last()@);
        }
    }

    /// Look a material up by name: the latest entry under that name, if any.
    pub fn get(&self, name: &[u8]) -> (r: Option<&WavefrontMaterial>)
        ensures
            match r {
                Some(m) => self@.contains_key(name@) && m@ == self@[name@],
                None => !self@.contains_key(name@),
            },
    {
        let ghost full = materials_view(self.entries@);
        proof {
            assert(full.subrange(0, full.len() as int) =~= full);
        }
        let mut j = self.entries.len();
        while j > 0
            invariant
                j <= self.entries@.len(),
                full == materials_view(self.entries@),
                entries_map(full).contains_key(name@) == entries_map(
                    full.subrange(0, j as int),
                ).contains_key(name@),
                entries_map(full).contains_key(name@) ==> entries_map(full)[name@] == entries_map(
                    full.subrange(0, j as int),
                )[name@],
            decreases j,
        {
            j -= 1;
            let entry = &self.entries[j];
            proof {
                assert(full.subrange(0, j + 1 as int).last() == entry@);
                assert(full.subrange(0, j + 1 as int).drop_last() =~= full.subrange(0, j as int));
            }
            if bytes_eq(entry.name.as_slice(), name) {
                return Some(entry);
            }
        }
        proof {
            assert(full.subrange(0, 0) =~= Seq::<MaterialV>::empty());
        }
        None
    }
}

/// Fold state of the material aggregation: the closed entries and the
/// currently open material.
#[verifier::ext_equal]
pub ghost struct MtlStateV {
    pub table: Map<Seq<u8>, MaterialV>,
    pub current: Option<MaterialV>,
}

/// A freshly opened material: zeroed colors and exponent.
pub open spec fn spec_fresh_material(name: Seq<u8>) -> MaterialV {
    MaterialV {
        name,
        specular_exponent: spec_zero_scalar(),
        ambient: spec_zero_triple(),
        diffuse: spec_zero_triple(),
        specular: spec_zero_triple(),
    }
}

pub open spec fn spec_zero_triple() -> TripleV {
    TripleV { x: spec_zero_scalar(), y: spec_zero_scalar(), z: spec_zero_scalar() }
}

/// Close the open material, if any, inserting it under its name.
pub open spec fn spec_close_current(st: MtlStateV) -> Map<Seq<u8>, MaterialV> {
    match st.current {
        Some(m) => st.table.insert(m.name, m),
        None => st.table,
    }
}

/// Fold one classified line into the state. A field assignment with no open
/// material is a structural error.
pub open spec fn spec_mtl_step(e: MtlEntityV, idx: int, st: MtlStateV) -> Result<
    MtlStateV,
    ParseError,
> {
    match e {
        MtlEntityV::Name(n) => Ok(
            MtlStateV { table: spec_close_current(st), current: Some(spec_fresh_material(n)) },
        ),
        MtlEntityV::Ambient(t) => match st.current {
            None => Err(ParseError::StructuralError { line: idx as usize }),
            Some(m) => Ok(MtlStateV { current: Some(MaterialV { ambient: t, ..m }), ..st }),
        },
        MtlEntityV::Diffuse(t) => match st.current {
            None => Err(ParseError::StructuralError { line: idx as usize }),
            Some(m) => Ok(MtlStateV { current: Some(MaterialV { diffuse: t, ..m }), ..st }),
        },
        MtlEntityV::Specular(t) => match st.current {
            None => Err(ParseError::StructuralError { line: idx as usize }),
            Some(m) => Ok(MtlStateV { current: Some(MaterialV { specular: t, ..m }), ..st }),
        },
        MtlEntityV::Exponent(sc) => match st.current {
            None => Err(ParseError::StructuralError { line: idx as usize }),
            Some(m) => Ok(
                MtlStateV { current: Some(MaterialV { specular_exponent: sc, ..m }), ..st },
            ),
        },
        MtlEntityV::Ignore => Ok(st),
    }
}

/// Fold the records from index `i` on, starting from state `st`.
pub open spec fn spec_mtl_fold(records: Seq<MtlEntityV>, i: int, st: MtlStateV) -> Result<
    MtlStateV,
    ParseError,
>
    decreases records.len() - i,
{
    if i < 0 || i >= records.len() {
        Ok(st)
    } else {
        match spec_mtl_step(records[i], i, st) {
            Err(e) => Err(e),
            Ok(st2) => spec_mtl_fold(records, i + 1, st2),
        }
    }
}

/// Classify every line from index `i` on; the first mismatch positions the
/// grammar error.
pub open spec fn spec_classify_all_mtl(lines: Seq<Seq<u8>>, i: int) -> Result<
    Seq<MtlEntityV>,
    ParseError,
>
    decreases lines.len() - i,
{
    if i < 0 || i >= lines.len() {
        Ok(Seq::<MtlEntityV>::empty())
    } else {
        match spec_classify_mtl_line(lines[i]) {
            None => Err(ParseError::GrammarMismatch { line: i as usize }),
            Some(r) => match spec_classify_all_mtl(lines, i + 1) {
                Err(e) => Err(e),
                Ok(rest) => Ok(seq![r] + rest),
            },
        }
    }
}

pub open spec fn spec_empty_mtl_state() -> MtlStateV {
    MtlStateV { table: Map::<Seq<u8>, MaterialV>::empty(), current: None }
}

/// The whole material parse: split into lines, classify, fold, and close
/// the final open material.
pub open spec fn spec_parse_mtl(s: Seq<u8>) -> Result<Map<Seq<u8>, MaterialV>, ParseError> {
    match spec_split_lines(s) {
        None => Err(ParseError::IncompleteInput),
        Some(lines) => match spec_classify_all_mtl(lines, 0) {
            Err(e) => Err(e),
            Ok(records) => match spec_mtl_fold(records, 0, spec_empty_mtl_state()) {
                Err(e) => Err(e),
                Ok(st) => Ok(spec_close_current(st)),
            },
        },
    }
}

/// View of the open material during the exec fold.
pub open spec fn opt_material_view(m: Option<WavefrontMaterial>) -> Option<MaterialV> {
    match m {
        Some(m) => Some(m@),
        None => None,
    }
}

/// Parse the complete text of a material-library document.
pub fn parse(input: &[u8]) -> (r: Result<MaterialTable, ParseError>)
    ensures
        match r {
            Ok(t) => spec_parse_mtl(input@) == Ok::<Map<Seq<u8>, MaterialV>, ParseError>(t@),
            Err(e) => spec_parse_mtl(input@) == Err::<Map<Seq<u8>, MaterialV>, ParseError>(e),
        },
{
    let lines = match split_lines(input) {
        Some(l) => l,
        None => { return Err(ParseError::IncompleteInput); },
    };
    let ghost lv = lines_view(lines@);
    let mut records: Vec<MtlEntity> = Vec::new();
    let mut i: usize = 0;
    while i < lines.len()
        invariant
            i <= lines@.len(),
            lv == lines_view(lines@),
            spec_split_lines(input@) == Some(lv),
            spec_classify_all_mtl(lv, 0) == match spec_classify_all_mtl(lv, i as int) {
                Err(e) => Err::<Seq<MtlEntityV>, ParseError>(e),
                Ok(rest) => Ok::<Seq<MtlEntityV>, ParseError>(mtl_entities_view(records@) + rest),
            },
        decreases lines@.len() - i,
    {
        let ghost prev = records@;
        match classify_mtl_line(lines[i].as_slice()) {
            None => {
                return Err(ParseError::GrammarMismatch { line: i });
            },
            Some(e) => {
                records.push(e);
                proof {
                    assert(mtl_entities_view(records@) =~= mtl_entities_view(prev)
                        + seq![records@.last()@]);
                    match spec_classify_all_mtl(lv, i + 1 as int) {
                        Result::Err(_) => {},
                        Result::Ok(rest) => {
                            assert(mtl_entities_view(prev) + (seq![records@.last()@] + rest)
                                =~= mtl_entities_view(records@) + rest);
                        },
                    }
                }
            },
        }
        i += 1;
    }
    proof {
        assert(mtl_entities_view(records@) + Seq::<MtlEntityV>::empty() =~= mtl_entities_view(
            records@,
        ));
    }
    let ghost rv = mtl_entities_view(records@);
    let mut table = MaterialTable::new();
    let mut current: Option<WavefrontMaterial> = None;
    proof {
        assert((MtlStateV { table: table@, current: opt_material_view(current) })
            =~= spec_empty_mtl_state());
    }
    let mut k: usize = 0;
    while k < records.len()
        invariant
            k <= records@.len(),
            rv == mtl_entities_view(records@),
            spec_split_lines(input@) == Some(lv),
            spec_classify_all_mtl(lv, 0) == Ok::<Seq<MtlEntityV>, ParseError>(rv),
            spec_mtl_fold(rv, 0, spec_empty_mtl_state()) == spec_mtl_fold(
                rv,
                k as int,
                MtlStateV { table: table@, current: opt_material_view(current) },
            ),
        decreases records@.len() - k,
    {
        let ghost st = MtlStateV { table: table@, current: opt_material_view(current) };
        let ent = &records[k];
        proof {
            assert(rv[k as int] == ent@);
        }
        match ent {
            MtlEntity::Name(n) => {
                match current {
                    Some(m) => {
                        table.insert(m);
                    },
                    None => {},
                }
                current = Some(fresh_material(dup_bytes(n)));
                proof {
                    assert((MtlStateV { table: table@, current: opt_material_view(current) })
                        =~= (MtlStateV {
                        table: spec_close_current(st),
                        current: Some(spec_fresh_material(n@)),
                    }));
                }
            },
            MtlEntity::Ambient(t) => {
                match current {
                    None => {
                        return Err(ParseError::StructuralError { line: k });
                    },
                    Some(ref mut m) => {
                        m.ambient = t.duplicate();
                    },
                }
            },
            MtlEntity::Diffuse(t) => {
                match current {
                    None => {
                        return Err(ParseError::StructuralError { line: k });
                    },
                    Some(ref mut m) => {
                        m.diffuse = t.duplicate();
                    },
                }
            },
            MtlEntity::Specular(t) => {
                match current {
                    None => {
                        return Err(ParseError::StructuralError { line: k });
                    },
                    Some(ref mut m) => {
                        m.specular = t.duplicate();
                    },
                }
            },
            MtlEntity::Exponent(sc) => {
                match current {
                    None => {
                        return Err(ParseError::StructuralError { line: k });
                    },
                    Some(ref mut m) => {
                        m.specular_exponent = sc.duplicate();
                    },
                }
            },
            MtlEntity::Ignore => {},
        }
        k += 1;
    }
    match current {
        Some(m) => {
            table.insert(m);
        },
        None => {},
    }
    Ok(table)
}

/// The material parse is a pure function of the input bytes: any two
/// results the parse contract admits for one buffer are equal, so parsing
/// the same buffer twice yields structurally equal tables.
pub proof fn lemma_parse_mtl_deterministic(
    input: Seq<u8>,
    r1: Result<Map<Seq<u8>, MaterialV>, ParseError>,
    r2: Result<Map<Seq<u8>, MaterialV>, ParseError>,
)
    requires
        r1 == spec_parse_mtl(input),
        r2 == spec_parse_mtl(input),
    ensures
        r1 == r2,
{
}

/// A freshly opened material with zeroed fields.
fn fresh_material(name: Vec<u8>) -> (r: WavefrontMaterial)
    ensures
        r@ == spec_fresh_material(name@),
{
    let m = WavefrontMaterial {
        name,
        specular_exponent: zero_scalar(),
        ambient: zero_triple(),
        diffuse: zero_triple(),
        specular: zero_triple(),
    };
    proof {
        assert(m@ =~= spec_fresh_material(m.name@));
    }
    m
}

/// The scalar `0.0`.
pub fn zero_scalar() -> (r: Scalar)
    ensures
        r@ == spec_zero_scalar(),
{
    let mut zi: Vec<u8> = Vec::new();
    zi.push(0x30);
    let mut zf: Vec<u8> = Vec::new();
    zf.push(0x30);
    proof {
        assert(zi@ =~= seq![0x30u8]);
        assert(zf@ =~= seq![0x30u8]);
    }
    Scalar { neg: false, int_digits: zi, frac_digits: zf }
}

/// The triple `(0, 0, 0)`.
pub fn zero_triple() -> (r: Triple)
    ensures
        r@ == spec_zero_triple(),
{
    Triple { x: zero_scalar(), y: zero_scalar(), z: zero_scalar() }
}

} // verus!
