//! Parser for a line-oriented finite-element mesh description: global
//! simulation parameters, node coordinates, quadrilateral element
//! connectivity, and a boundary-condition node list.
#![verifier::loop_isolation(false)]

pub mod floatlit;
pub mod laws;
pub mod model;
pub mod parse_spec;
pub mod parser;
pub mod text;

pub use model::Element;
pub use model::GlobalData;
pub use model::MeshDocument;
pub use model::Node;
pub use model::ParseError;
pub use model::Section;
pub use parser::parse_mesh;
