//! Tetrahedral meshes read from tecplot zone documents.
//!
//! The library parses the text of a tecplot document into a [`Document`],
//! rebuilds a [`Mesh`] from it, reads whitespace-separated integer lists, and
//! offers exact small-matrix algebra over integer matrices.

pub mod document;
pub mod linalg;
pub mod mesh;
pub mod spaghetti;
pub mod tecplot_parser;

pub use document::{Document, FirstZone, Zone};
pub use linalg::{Adjugate, Determinant, Inverse};
pub use mesh::{create_mesh_from_document, Field, Mesh, ReconstructError, StreamKind};
pub use spaghetti::{read_integers_from_input, IntegerListError};
pub use tecplot_parser::{parse_document, parse_title, parse_variables, ParseError, ParseErrorKind};
