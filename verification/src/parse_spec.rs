//! The mathematical model of the parse: a line-by-line state machine over the
//! split input. `parse_doc` is the single function the executable parser is
//! proved equal to.

use vstd::prelude::*;
use crate::floatlit::is_float_lit;
use crate::model::{DocModel, ElementModel, GlobalModel, NodeModel, ParseError, Section};
use crate::text::{spec_parse_usize, spec_split, spec_trim, spec_ws_tokens};

verus! {

/// The parser state: the current section and the document built so far.
pub ghost struct PState {
    pub section: Section,
    pub doc: DocModel,
}

/// A line whose trimmed content is empty.
pub open spec fn is_blank(line: Seq<u8>) -> bool {
    spec_trim(line).len() == 0
}

/// `line` begins with the bytes of `pre`.
pub open spec fn starts_with(line: Seq<u8>, pre: Seq<u8>) -> bool {
    line.len() >= pre.len() && line.take(pre.len() as int) == pre
}

/// The header keyword `*Node`.
pub open spec fn header_node() -> Seq<u8> {
    seq![42u8, 78, 111, 100, 101]
}

/// The header keyword `*Element`.
pub open spec fn header_element() -> Seq<u8> {
    seq![42u8, 69, 108, 101, 109, 101, 110, 116]
}

/// The header keyword `*BC`.
pub open spec fn header_bc() -> Seq<u8> {
    seq![42u8, 66, 67]
}

/// The parameter key `SimulationTime`.
pub open spec fn key_simulation_time() -> Seq<u8> {
    seq![83u8, 105, 109, 117, 108, 97, 116, 105, 111, 110, 84, 105, 109, 101]
}

/// The parameter key `SimulationStepTime`.
pub open spec fn key_simulation_step_time() -> Seq<u8> {
    seq![83u8, 105, 109, 117, 108, 97, 116, 105, 111, 110, 83, 116, 101, 112, 84, 105, 109, 101]
}

/// The parameter key `Conductivity`.
pub open spec fn key_conductivity() -> Seq<u8> {
    seq![67u8, 111, 110, 100, 117, 99, 116, 105, 118, 105, 116, 121]
}

/// The parameter key `Alfa`.
pub open spec fn key_alfa() -> Seq<u8> {
    seq![65u8, 108, 102, 97]
}

/// The parameter key `Tot`.
pub open spec fn key_tot() -> Seq<u8> {
    seq![84u8, 111, 116]
}

/// The parameter key `InitialTemp`.
pub open spec fn key_initial_temp() -> Seq<u8> {
    seq![73u8, 110, 105, 116, 105, 97, 108, 84, 101, 109, 112]
}

/// The parameter key `Density`.
pub open spec fn key_density() -> Seq<u8> {
    seq![68u8, 101, 110, 115, 105, 116, 121]
}

/// The parameter key `SpecificHeat`.
pub open spec fn key_specific_heat() -> Seq<u8> {
    seq![83u8, 112, 101, 99, 105, 102, 105, 99, 72, 101, 97, 116]
}

/// The parameter key `Nodes` (declared node count).
pub open spec fn key_nodes() -> Seq<u8> {
    seq![78u8, 111, 100, 101, 115]
}

/// The parameter key `Elements` (declared element count).
pub open spec fn key_elements() -> Seq<u8> {
    seq![69u8, 108, 101, 109, 101, 110, 116, 115]
}

/// The literal `0`, the default text of every real-valued parameter.
pub open spec fn zero_lit() -> Seq<u8> {
    seq![48u8]
}

/// The state before any line has been read: section `Global`, all parameters
/// at their defaults, no nodes, elements or boundary conditions.
pub open spec fn init_state() -> PState {
    PState {
        section: Section::Global,
        doc: DocModel {
            global: GlobalModel {
                simulation_time: zero_lit(),
                simulation_step_time: zero_lit(),
                conductivity: zero_lit(),
                alfa: zero_lit(),
                tot: zero_lit(),
                initial_temp: zero_lit(),
                density: zero_lit(),
                specific_heat: zero_lit(),
                n_n: 0,
                n_e: 0,
            },
            nodes: seq![],
            elements: seq![],
            boundary_conditions: seq![],
        },
    }
}

/// The value token of a scalar parameter line: the second whitespace token,
/// which must be a floating-point literal.
pub open spec fn scalar_value(toks: Seq<Seq<u8>>, lineno: usize) -> Result<Seq<u8>, ParseError> {
    if toks.len() < 2 {
        Err(ParseError::FieldArity { line: lineno })
    } else if !is_float_lit(toks[1]) {
        Err(ParseError::NumericConversion { line: lineno })
    } else {
        Ok(toks[1])
    }
}

/// The value of a declared-count line: the third whitespace token, parsed as
/// an unsigned integer (the second token is ignored).
pub open spec fn count_value(toks: Seq<Seq<u8>>, lineno: usize) -> Result<usize, ParseError> {
    if toks.len() < 3 {
        Err(ParseError::FieldArity { line: lineno })
    } else {
        match spec_parse_usize(toks[2]) {
            Some(n) => Ok(n),
            None => Err(ParseError::NumericConversion { line: lineno }),
        }
    }
}

/// One global-parameter line applied to the parameters: a recognised key
/// stores its value, an unrecognised key changes nothing.
pub open spec fn step_global(g: GlobalModel, line: Seq<u8>, lineno: usize) -> Result<
    GlobalModel,
    ParseError,
> {
    let toks = spec_ws_tokens(line);
    if toks.len() == 0 {
        Ok(g)
    } else if toks[0] == key_simulation_time() {
        match scalar_value(toks, lineno) {
            Ok(v) => Ok(GlobalModel { simulation_time: v, ..g }),
            Err(e) => Err(e),
        }
    } else if toks[0] == key_simulation_step_time() {
        match scalar_value(toks, lineno) {
            Ok(v) => Ok(GlobalModel { simulation_step_time: v, ..g }),
            Err(e) => Err(e),
        }
    } else if toks[0] == key_conductivity() {
        match scalar_value(toks, lineno) {
            Ok(v) => Ok(GlobalModel { conductivity: v, ..g }),
            Err(e) => Err(e),
        }
    } else if toks[0] == key_alfa() {
        match scalar_value(toks, lineno) {
            Ok(v) => Ok(GlobalModel { alfa: v, ..g }),
            Err(e) => Err(e),
        }
    } else if toks[0] == key_tot() {
        match scalar_value(toks, lineno) {
            Ok(v) => Ok(GlobalModel { tot: v, ..g }),
            Err(e) => Err(e),
        }
    } else if toks[0] == key_initial_temp() {
        match scalar_value(toks, lineno) {
            Ok(v) => Ok(GlobalModel { initial_temp: v, ..g }),
            Err(e) => Err(e),
        }
    } else if toks[0] == key_density() {
        match scalar_value(toks, lineno) {
            Ok(v) => Ok(GlobalModel { density: v, ..g }),
            Err(e) => Err(e),
        }
    } else if toks[0] == key_specific_heat() {
        match scalar_value(toks, lineno) {
            Ok(v) => Ok(GlobalModel { specific_heat: v, ..g }),
            Err(e) => Err(e),
        }
    } else if toks[0] == key_nodes() {
        match count_value(toks, lineno) {
            Ok(n) => Ok(GlobalModel { n_n: n, ..g }),
            Err(e) => Err(e),
        }
    } else if toks[0] == key_elements() {
        match count_value(toks, lineno) {
            Ok(n) => Ok(GlobalModel { n_e: n, ..g }),
            Err(e) => Err(e),
        }
    } else {
        Ok(g)
    }
}

/// One node row: exactly three comma-separated fields — identifier, x, y —
/// each trimmed before conversion.
pub open spec fn conv_node(line: Seq<u8>, lineno: usize) -> Result<NodeModel, ParseError> {
    let fs = spec_split(line, 44);
    if fs.len() != 3 {
        Err(ParseError::FieldArity { line: lineno })
    } else {
        let f0 = spec_trim(fs[0]);
        let f1 = spec_trim(fs[1]);
        let f2 = spec_trim(fs[2]);
        match spec_parse_usize(f0) {
            None => Err(ParseError::NumericConversion { line: lineno }),
            Some(id) => if !is_float_lit(f1) || !is_float_lit(f2) {
                Err(ParseError::NumericConversion { line: lineno })
            } else {
                Ok(NodeModel { id, x: f1, y: f2 })
            },
        }
    }
}

/// One element row: exactly five comma-separated fields — identifier, then
/// four node references in input order — each trimmed, all unsigned integers.
pub open spec fn conv_element(line: Seq<u8>, lineno: usize) -> Result<ElementModel, ParseError> {
    let fs = spec_split(line, 44);
    if fs.len() != 5 {
        Err(ParseError::FieldArity { line: lineno })
    } else {
        let p0 = spec_parse_usize(spec_trim(fs[0]));
        let p1 = spec_parse_usize(spec_trim(fs[1]));
        let p2 = spec_parse_usize(spec_trim(fs[2]));
        let p3 = spec_parse_usize(spec_trim(fs[3]));
        let p4 = spec_parse_usize(spec_trim(fs[4]));
        if p0 is None || p1 is None || p2 is None || p3 is None || p4 is None {
            Err(ParseError::NumericConversion { line: lineno })
        } else {
            Ok(
                ElementModel {
                    id: p0->Some_0,
                    nodes: seq![p1->Some_0, p2->Some_0, p3->Some_0, p4->Some_0],
                },
            )
        }
    }
}

/// The identifiers of the fields `fs[i..]`, appended in order to those
/// accumulated so far: each trimmed field must parse as an unsigned integer.
pub open spec fn conv_ids(fs: Seq<Seq<u8>>, i: int, acc: Seq<usize>, lineno: usize) -> Result<
    Seq<usize>,
    ParseError,
>
    decreases fs.len() - i,
{
    if i < 0 || i >= fs.len() {
        Ok(acc)
    } else {
        match spec_parse_usize(spec_trim(fs[i])) {
            None => Err(ParseError::NumericConversion { line: lineno }),
            Some(v) => conv_ids(fs, i + 1, acc.push(v), lineno),
        }
    }
}

/// One boundary-condition row: any number of comma-separated identifiers,
/// appended to the list one by one.
pub open spec fn conv_bc(line: Seq<u8>, lineno: usize) -> Result<Seq<usize>, ParseError> {
    conv_ids(spec_split(line, 44), 0, seq![], lineno)
}

/// A parser state assembled from its parts.
pub open spec fn state_of(
    section: Section,
    global: GlobalModel,
    nodes: Seq<NodeModel>,
    elements: Seq<ElementModel>,
    boundary_conditions: Seq<usize>,
) -> PState {
    PState {
        section,
        doc: DocModel { global, nodes, elements, boundary_conditions },
    }
}

/// One line applied to the parser state. Blank lines and header lines change
/// only the section marker; every other line is dispatched to the converter
/// of the current section.
pub open spec fn step_line(st: PState, line: Seq<u8>, lineno: usize) -> Result<
    PState,
    ParseError,
> {
    if is_blank(line) {
        Ok(st)
    } else if starts_with(line, header_node()) {
        Ok(PState { section: Section::Nodes, doc: st.doc })
    } else if starts_with(line, header_element()) {
        Ok(PState { section: Section::Elements, doc: st.doc })
    } else if starts_with(line, header_bc()) {
        Ok(PState { section: Section::Boundary, doc: st.doc })
    } else {
        match st.section {
            Section::Global => match step_global(st.doc.global, line, lineno) {
                Ok(g) => Ok(PState { section: st.section, doc: DocModel { global: g, ..st.doc } }),
                Err(e) => Err(e),
            },
            Section::Nodes => match conv_node(line, lineno) {
                Ok(n) => Ok(
                    PState {
                        section: st.section,
                        doc: DocModel { nodes: st.doc.nodes.push(n), ..st.doc },
                    },
                ),
                Err(e) => Err(e),
            },
            Section::Elements => match conv_element(line, lineno) {
                Ok(el) => Ok(
                    PState {
                        section: st.section,
                        doc: DocModel { elements: st.doc.elements.push(el), ..st.doc },
                    },
                ),
                Err(e) => Err(e),
            },
            Section::Boundary => match conv_bc(line, lineno) {
                Ok(ids) => Ok(
                    PState {
                        section: st.section,
                        doc: DocModel {
                            boundary_conditions: st.doc.boundary_conditions + ids,
                            ..st.doc
                        },
                    },
                ),
                Err(e) => Err(e),
            },
        }
    }
}

/// The state machine run over `lines[i..]` from state `st`; line numbers are
/// one-based.
pub open spec fn run_from(lines: Seq<Seq<u8>>, i: int, st: PState) -> Result<PState, ParseError>
    decreases lines.len() - i,
{
    if i < 0 || i >= lines.len() {
        Ok(st)
    } else {
        match step_line(st, lines[i], (i + 1) as usize) {
            Ok(st2) => run_from(lines, i + 1, st2),
            Err(e) => Err(e),
        }
    }
}

/// The lines of the input: split on the line-feed byte.
pub open spec fn spec_lines(input: Seq<u8>) -> Seq<Seq<u8>> {
    spec_split(input, 10)
}

/// What parsing `input` yields: the document of the final state, or the first
/// error.
pub open spec fn parse_doc(input: Seq<u8>) -> Result<DocModel, ParseError> {
    match run_from(spec_lines(input), 0, init_state()) {
        Ok(st) => Ok(st.doc),
        Err(e) => Err(e),
    }
}

} // verus!
