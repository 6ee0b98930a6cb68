//! A verified parser for plain-text 3D asset descriptions: a line-oriented
//! geometry format (vertex pools, named objects, triangular faces) and a
//! companion material-library format, joined by a resolver that flattens
//! index-based faces into render-ready vertex lists bound to materials.

use vstd::prelude::*;

pub mod lexer;
pub mod mtl;
pub mod obj;
pub mod resolve;

verus! {

/// How a parse can fail. Lexical failure (a dangling final line without a
/// terminator) is an incomplete-input condition; a line whose leading tag
/// matches a production but whose required fields are malformed is a grammar
/// mismatch; a directive that needs an open object or material when none is
/// open is a structural error; a face index outside the pools declared so far
/// is a reference error. Positions are 0-based line numbers.
#[derive(Clone, Copy, Debug, PartialEq, Eq, Structural)]
pub enum ParseError {
    IncompleteInput,
    GrammarMismatch { line: usize },
    StructuralError { line: usize },
    ReferenceError { line: usize },
}

/// Whether a consumer's processing loop should go on after handling an
/// event.
#[derive(Clone, Copy, Debug, PartialEq, Eq, Structural)]
pub enum Action {
    Stop,
    Continue,
}

/// Parse the complete text of a geometry document into its document model.
pub fn parse_obj_string(input: &[u8]) -> (r: Result<obj::WavefrontModelData, ParseError>)
    ensures
        match r {
            Ok(d) => obj::spec_parse_obj(input@) == Ok::<obj::DocV, ParseError>(d@),
            Err(e) => obj::spec_parse_obj(input@) == Err::<obj::DocV, ParseError>(e),
        },
{
    obj::parse(input)
}

/// Parse the complete text of a material-library document into a table.
pub fn parse_mtl_string(input: &[u8]) -> (r: Result<mtl::MaterialTable, ParseError>)
    ensures
        match r {
            Ok(t) => mtl::spec_parse_mtl(input@) == Ok::<Map<Seq<u8>, mtl::MaterialV>, ParseError>(
                t@,
            ),
            Err(e) => mtl::spec_parse_mtl(input@) == Err::<
                Map<Seq<u8>, mtl::MaterialV>,
                ParseError,
            >(e),
        },
{
    mtl::parse(input)
}

} // verus!
