//! The content of a parsed tecplot document.

use vstd::prelude::*;

verus! {

/// The content of a tecplot document, as read by the parser.
///
/// `F` is the representation of a floating-point token: the parser yields the
/// token's text, and callers convert it to the numeric type of their choice.
pub struct Document<F> {
    /// The document title, quotes included.
    pub title: String,
    /// The variable names in declaration order, quotes included.
    pub variables: Vec<String>,
    /// The first zone, which carries the geometry.
    pub first_zone: FirstZone<F>,
    /// The zones after the first one, each carrying one vector field.
    pub zones: Option<Vec<Zone<F>>>,
}

/// The first zone of a document: geometry, connectivity and the first field.
pub struct FirstZone<F> {
    /// The zone title, quotes included.
    pub title: String,
    /// The vertex count declared by the zone header (`N=`).
    pub no_of_vertices: usize,
    /// The element count declared by the zone header (`E=`).
    pub no_of_elements: usize,
    /// Every floating-point token of the zone body, in order.
    pub float_list: Vec<F>,
    /// Every integer token of the zone body, in order.
    pub integer_list: Vec<usize>,
}

/// A zone after the first one: the components of one vector field.
pub struct Zone<F> {
    /// The zone title, quotes included.
    pub title: String,
    /// The vertex count declared by the zone header (`N=`).
    pub no_of_vertices: usize,
    /// The element count declared by the zone header (`E=`), zero when absent.
    pub no_of_elements: usize,
    /// Every floating-point token of the zone body, in order.
    pub float_list: Vec<F>,
}

impl<F> Document<F> {
    /// The zones after the first one, as a sequence (empty when absent).
    pub open spec fn later_zones(&self) -> Seq<Zone<F>> {
        match self.zones {
            Some(z) => z@,
            None => Seq::empty(),
        }
    }
}

} // verus!
