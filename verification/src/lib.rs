//! A programmatic builder for SVG markup: assemble elements, attributes and
//! path data in memory, then serialize the tree to its textual form.
//!
//! Every serialization routine carries a contract that pins the produced text
//! down to a sequence of characters, so the output format is fixed by proof
//! rather than by convention.

pub mod attr;
pub mod element;
pub mod path;
pub mod points;
pub mod svg;
pub mod text;

pub use attr::AttrMap;
pub use attr::HaiSVGError;
pub use element::SVGElement;
pub use path::PathNode;
pub use path::ToPathNode;
pub use points::Processable;
pub use svg::SVG;
