//! The mesh document data model: global simulation parameters, nodes,
//! quadrilateral elements, and the boundary-condition node list.
//!
//! Real-valued fields hold the validated text of their literal (see
//! `floatlit`): the parser guarantees each such field is convertible to a
//! machine float, and a consumer performs the conversion where it displays or
//! computes with the value.

use vstd::prelude::*;
use crate::floatlit::is_float_lit;

verus! {

/// Scalar simulation configuration. Real-valued fields hold floating-point
/// literal text and default to `0`; the declared counts `n_n` (nodes) and
/// `n_e` (elements) are advisory only and never enforced against the parsed
/// entries.
#[derive(Debug, Clone, PartialEq, Eq)]
pub struct GlobalData {
    pub simulation_time: Vec<u8>,
    pub simulation_step_time: Vec<u8>,
    pub conductivity: Vec<u8>,
    pub alfa: Vec<u8>,
    pub tot: Vec<u8>,
    pub initial_temp: Vec<u8>,
    pub density: Vec<u8>,
    pub specific_heat: Vec<u8>,
    pub n_n: usize,
    pub n_e: usize,
}

/// The mathematical value of a `GlobalData`.
pub ghost struct GlobalModel {
    pub simulation_time: Seq<u8>,
    pub simulation_step_time: Seq<u8>,
    pub conductivity: Seq<u8>,
    pub alfa: Seq<u8>,
    pub tot: Seq<u8>,
    pub initial_temp: Seq<u8>,
    pub density: Seq<u8>,
    pub specific_heat: Seq<u8>,
    pub n_n: usize,
    pub n_e: usize,
}

impl View for GlobalData {
    type V = GlobalModel;

    open spec fn view(&self) -> GlobalModel {
        GlobalModel {
            simulation_time: self.simulation_time@,
            simulation_step_time: self.simulation_step_time@,
            conductivity: self.conductivity@,
            alfa: self.alfa@,
            tot: self.tot@,
            initial_temp: self.initial_temp@,
            density: self.density@,
            specific_heat: self.specific_heat@,
            n_n: self.n_n,
            n_e: self.n_e,
        }
    }
}

impl GlobalModel {
    /// Every real-valued field holds a valid floating-point literal.
    pub open spec fn wf(self) -> bool {
        &&& is_float_lit(self.simulation_time)
        &&& is_float_lit(self.simulation_step_time)
        &&& is_float_lit(self.conductivity)
        &&& is_float_lit(self.alfa)
        &&& is_float_lit(self.tot)
        &&& is_float_lit(self.initial_temp)
        &&& is_float_lit(self.density)
        &&& is_float_lit(self.specific_heat)
    }
}

/// One mesh node: an identifier and the literal text of its two coordinates.
#[derive(Debug, Clone, PartialEq, Eq)]
pub struct Node {
    pub id: usize,
    pub x: Vec<u8>,
    pub y: Vec<u8>,
}

/// The mathematical value of a `Node`.
pub ghost struct NodeModel {
    pub id: usize,
    pub x: Seq<u8>,
    pub y: Seq<u8>,
}

impl View for Node {
    type V = NodeModel;

    open spec fn view(&self) -> NodeModel {
        NodeModel { id: self.id, x: self.x@, y: self.y@ }
    }
}

impl NodeModel {
    /// Both coordinates hold valid floating-point literals.
    pub open spec fn wf(self) -> bool {
        is_float_lit(self.x) && is_float_lit(self.y)
    }
}

/// One quadrilateral element: an identifier and exactly four node references
/// in the winding order the input gave.
#[derive(Debug, Clone, PartialEq, Eq)]
pub struct Element {
    pub id: usize,
    pub nodes: [usize; 4],
}

/// The mathematical value of an `Element`.
pub ghost struct ElementModel {
    pub id: usize,
    pub nodes: Seq<usize>,
}

impl View for Element {
    type V = ElementModel;

    open spec fn view(&self) -> ElementModel {
        ElementModel { id: self.id, nodes: self.nodes@ }
    }
}

impl ElementModel {
    /// An element references exactly four nodes.
    pub open spec fn wf(self) -> bool {
        self.nodes.len() == 4
    }
}

/// The parsed document: global parameters, nodes, elements, and the ordered
/// boundary-condition node list (duplicates permitted, file order kept).
#[derive(Debug, Clone, PartialEq, Eq)]
pub struct MeshDocument {
    pub global: GlobalData,
    pub nodes: Vec<Node>,
    pub elements: Vec<Element>,
    pub boundary_conditions: Vec<usize>,
}

/// The mathematical value of a `MeshDocument`.
pub ghost struct DocModel {
    pub global: GlobalModel,
    pub nodes: Seq<NodeModel>,
    pub elements: Seq<ElementModel>,
    pub boundary_conditions: Seq<usize>,
}

impl View for MeshDocument {
    type V = DocModel;

    open spec fn view(&self) -> DocModel {
        DocModel {
            global: self.global@,
            nodes: self.nodes@.map_values(|n: Node| n@),
            elements: self.elements@.map_values(|e: Element| e@),
            boundary_conditions: self.boundary_conditions@,
        }
    }
}

impl DocModel {
    /// Well-formedness of the whole document: every stored literal is valid
    /// and every element has exactly four node references.
    pub open spec fn wf(self) -> bool {
        &&& self.global.wf()
        &&& forall|i: int| 0 <= i < self.nodes.len() ==> (#[trigger] self.nodes[i]).wf()
        &&& forall|i: int| 0 <= i < self.elements.len() ==> (#[trigger] self.elements[i]).wf()
    }
}

/// Why a parse failed, with the one-based number of the offending line.
#[derive(Debug, Clone, Copy, PartialEq, Eq, Structural)]
pub enum ParseError {
    /// A data row did not split into the field count its section requires.
    FieldArity { line: usize },
    /// A token that had to be numeric does not parse.
    NumericConversion { line: usize },
}

/// The section a line of input belongs to. The parser starts in `Global` and
/// leaves it for good at the first header line.
#[derive(Debug, Clone, Copy, PartialEq, Eq, Structural)]
pub enum Section {
    Global,
    Nodes,
    Elements,
    Boundary,
}

} // verus!
