//! Meshes and their reconstruction from a parsed document.

use vstd::prelude::*;

use crate::document::{Document, Zone};

verus! {

/// A vector field on a mesh: one 3-vector per vertex, in vertex order.
pub struct Field<F> {
    pub label: String,
    pub vectors: Vec<[F; 3]>,
}

/// A tetrahedral mesh with its vertex fields.
///
/// `elements[e]` holds the zero-based indices of the four corners of element
/// `e`, and `submesh_indices[e]` its submesh tag. `volume` and `net_moments`
/// are absent until computed.
pub struct Mesh<F> {
    pub label: String,
    pub vertices: Vec<[F; 3]>,
    pub elements: Vec<[usize; 4]>,
    pub submesh_indices: Vec<usize>,
    pub fields: Vec<Field<F>>,
    pub volume: Option<F>,
    pub net_moments: Option<Vec<[F; 3]>>,
}

/// The two token streams of a zone body.
#[derive(PartialEq, Eq, Structural, Debug, Clone, Copy)]
pub enum StreamKind {
    Floats,
    Integers,
}

/// Why a document does not describe a mesh.
///
/// `zone` is 0 for the first zone and `k` for the `k`-th zone after it.
#[derive(PartialEq, Eq, Structural, Debug, Clone, Copy)]
pub enum ReconstructError {
    /// The stream holds fewer tokens than the header counts call for.
    TooFewTokens { zone: usize, stream: StreamKind, expected: u128, found: usize },
    /// The stream holds more tokens than the header counts call for.
    TooManyTokens { zone: usize, stream: StreamKind, expected: u128, found: usize },
    /// Corner `corner` of element `element` names vertex `index` (one-based),
    /// which is not a vertex of the mesh.
    VertexIndexOutOfRange { element: usize, corner: usize, index: usize },
}

/// The error for a stream of `found` tokens where `expected` are called for.
pub open spec fn count_error(zone: int, stream: StreamKind, expected: int, found: int) -> Option<ReconstructError> {
    if found < expected {
        Some(ReconstructError::TooFewTokens { zone: zone as usize, stream, expected: expected as u128, found: found as usize })
    } else if found > expected {
        Some(ReconstructError::TooManyTokens { zone: zone as usize, stream, expected: expected as u128, found: found as usize })
    } else {
        None
    }
}

/// The first count error among the zones `k..` after the first one.
pub open spec fn zones_count_error<F>(zones: Seq<Zone<F>>, nvert: int, k: int) -> Option<ReconstructError>
    decreases zones.len() - k,
{
    if 0 <= k < zones.len() {
        match count_error(k + 1, StreamKind::Floats, 3 * nvert, zones[k].float_list@.len() as int) {
            Some(e) => Some(e),
            None => zones_count_error(zones, nvert, k + 1),
        }
    } else {
        None
    }
}

/// Whether a one-based connectivity token names one of `nvert` vertices.
pub open spec fn is_vertex_number(v: usize, nvert: int) -> bool {
    1 <= v <= nvert
}

/// The error for the first corner of element `e` that names no vertex.
/// The connectivity of element `e` starts at `nelem + 4 * e` in `ints`.
pub open spec fn element_index_error(ints: Seq<usize>, nelem: int, nvert: int, e: int) -> Option<ReconstructError> {
    let b = nelem + 4 * e;
    if !is_vertex_number(ints[b], nvert) {
        Some(ReconstructError::VertexIndexOutOfRange { element: e as usize, corner: 0, index: ints[b] })
    } else if !is_vertex_number(ints[b + 1], nvert) {
        Some(ReconstructError::VertexIndexOutOfRange { element: e as usize, corner: 1, index: ints[b + 1] })
    } else if !is_vertex_number(ints[b + 2], nvert) {
        Some(ReconstructError::VertexIndexOutOfRange { element: e as usize, corner: 2, index: ints[b + 2] })
    } else if !is_vertex_number(ints[b + 3], nvert) {
        Some(ReconstructError::VertexIndexOutOfRange { element: e as usize, corner: 3, index: ints[b + 3] })
    } else {
        None
    }
}

/// The first connectivity error among elements `e..nelem`.
pub open spec fn index_error(ints: Seq<usize>, nelem: int, nvert: int, e: int) -> Option<ReconstructError>
    decreases nelem - e,
{
    if 0 <= e < nelem {
        match element_index_error(ints, nelem, nvert, e) {
            Some(err) => Some(err),
            None => index_error(ints, nelem, nvert, e + 1),
        }
    } else {
        None
    }
}

/// The first reason why `doc` does not describe a mesh, checked in this
/// order: the first zone's integer count (`nelem` tags plus `4 * nelem`
/// corners), its float count (`3 * nvert` coordinates plus `3 * nvert` field
/// components), the float count of each later zone (`3 * nvert`), and the
/// corners of each element.
pub open spec fn reconstruct_error<F>(doc: Document<F>) -> Option<ReconstructError> {
    let fz = doc.first_zone;
    let nvert = fz.no_of_vertices as int;
    let nelem = fz.no_of_elements as int;
    match count_error(0, StreamKind::Integers, 5 * nelem, fz.integer_list@.len() as int) {
        Some(e) => Some(e),
        None => match count_error(0, StreamKind::Floats, 6 * nvert, fz.float_list@.len() as int) {
            Some(e) => Some(e),
            None => match zones_count_error(doc.later_zones(), nvert, 0) {
                Some(e) => Some(e),
                None => index_error(fz.integer_list@, nelem, nvert, 0),
            },
        },
    }
}

/// `rows` holds the `n` rows whose columns lie one after another in `flat`
/// from `start`: row `i` is `(flat[start + i], flat[start + n + i],
/// flat[start + 2n + i])`.
pub open spec fn rows_of_columns<F>(rows: Seq<[F; 3]>, flat: Seq<F>, start: int, n: int) -> bool {
    &&& rows.len() == n
    &&& forall|i: int|
        0 <= i < n ==> {
            &&& (#[trigger] rows[i])[0] == flat[start + i]
            &&& rows[i][1] == flat[start + n + i]
            &&& rows[i][2] == flat[start + 2 * n + i]
        }
}

/// `elems` holds the `nelem` elements whose one-based corners follow the
/// `nelem` submesh tags in `ints`, made zero-based.
pub open spec fn elements_of_connectivity(elems: Seq<[usize; 4]>, ints: Seq<usize>, nelem: int) -> bool {
    &&& elems.len() == nelem
    &&& forall|e: int|
        0 <= e < nelem ==> {
            &&& (#[trigger] elems[e])[0] == ints[nelem + 4 * e] - 1
            &&& elems[e][1] == ints[nelem + 4 * e + 1] - 1
            &&& elems[e][2] == ints[nelem + 4 * e + 2] - 1
            &&& elems[e][3] == ints[nelem + 4 * e + 3] - 1
        }
}

/// `mesh` is the mesh that `doc` describes.
pub open spec fn mesh_of_document<F>(doc: Document<F>, mesh: Mesh<F>) -> bool {
    let fz = doc.first_zone;
    let nvert = fz.no_of_vertices as int;
    let nelem = fz.no_of_elements as int;
    let zones = doc.later_zones();
    &&& mesh.label@ == doc.title@
    &&& rows_of_columns(mesh.vertices@, fz.float_list@, 0, nvert)
    &&& mesh.submesh_indices@ == fz.integer_list@.subrange(0, nelem)
    &&& elements_of_connectivity(mesh.elements@, fz.integer_list@, nelem)
    &&& mesh.fields@.len() == zones.len() + 1
    &&& mesh.fields@[0].label@ == fz.title@
    &&& rows_of_columns(mesh.fields@[0].vectors@, fz.float_list@, 3 * nvert, nvert)
    &&& forall|k: int|
        0 <= k < zones.len() ==> {
            &&& (#[trigger] mesh.fields@[k + 1]).label@ == zones[k].title@
            &&& rows_of_columns(mesh.fields@[k + 1].vectors@, zones[k].float_list@, 0, nvert)
        }
    &&& mesh.volume is None
    &&& mesh.net_moments is None
}

/// The count error, if any, of a stream of `found` tokens where `factor`
/// tokens per declared item are called for.
fn check_count(zone: usize, stream: StreamKind, declared: usize, factor: u128, found: usize) -> (r: Option<ReconstructError>)
    requires
        1 <= factor <= 6,
    ensures
        r == count_error(zone as int, stream, declared * factor, found as int),
{
    assert(declared as u128 * factor <= 0xffff_ffff_ffff_ffff * 6) by (nonlinear_arith)
        requires
            factor <= 6,
    ;
    let expected: u128 = declared as u128 * factor;
    if (found as u128) < expected {
        Some(ReconstructError::TooFewTokens { zone, stream, expected, found })
    } else if (found as u128) > expected {
        Some(ReconstructError::TooManyTokens { zone, stream, expected, found })
    } else {
        None
    }
}

/// The `n` rows whose columns lie one after another in `flat` from `start`.
fn gather_rows<F: Copy>(flat: &Vec<F>, start: usize, n: usize) -> (rows: Vec<[F; 3]>)
    requires
        start + 3 * n <= flat@.len(),
    ensures
        rows_of_columns(rows@, flat@, start as int, n as int),
{
    let len: usize = flat.len();
    let mut rows: Vec<[F; 3]> = Vec::new();
    let mut i: usize = 0;
    while i < n
        invariant
            i <= n,
            len == flat@.len(),
            start + 3 * n <= len,
            rows@.len() == i,
            forall|j: int|
                0 <= j < i ==> {
                    &&& (#[trigger] rows@[j])[0] == flat@[start + j]
                    &&& rows@[j][1] == flat@[start + n + j]
                    &&& rows@[j][2] == flat@[start + 2 * n + j]
                },
        decreases n - i,
    {
        let row: [F; 3] = [flat[start + i], flat[start + n + i], flat[start + 2 * n + i]];
        rows.push(row);
        i = i + 1;
    }
    rows
}

/// The first `n` tokens of `ints`.
fn prefix(ints: &Vec<usize>, n: usize) -> (r: Vec<usize>)
    requires
        n <= ints@.len(),
    ensures
        r@ == ints@.subrange(0, n as int),
{
    let mut r: Vec<usize> = Vec::new();
    let mut i: usize = 0;
    while i < n
        invariant
            i <= n <= ints@.len(),
            r@ == ints@.subrange(0, i as int),
        decreases n - i,
    {
        r.push(ints[i]);
        i = i + 1;
        assert(r@ =~= ints@.subrange(0, i as int));
    }
    r
}

/// The zero-based corners of the `nelem` elements whose one-based corners
/// follow the `nelem` submesh tags in `ints`, or the first corner that names
/// none of the `nvert` vertices.
fn connectivity(ints: &Vec<usize>, nelem: usize, nvert: usize) -> (r: Result<Vec<[usize; 4]>, ReconstructError>)
    requires
        ints@.len() == 5 * nelem,
    ensures
        match r {
            Ok(elems) => {
                &&& index_error(ints@, nelem as int, nvert as int, 0) is None
                &&& elements_of_connectivity(elems@, ints@, nelem as int)
                &&& forall|e: int, c: int|
                    0 <= e < nelem && 0 <= c < 4 ==> (#[trigger] elems@[e][c]) < nvert
            },
            Err(err) => index_error(ints@, nelem as int, nvert as int, 0) == Some(err),
        },
{
    let len: usize = ints.len();
    let mut elems: Vec<[usize; 4]> = Vec::new();
    let mut e: usize = 0;
    while e < nelem
        invariant
            len == ints@.len() == 5 * nelem,
            e <= nelem,
            index_error(ints@, nelem as int, nvert as int, 0) == index_error(ints@, nelem as int, nvert as int, e as int),
            elems@.len() == e,
            forall|j: int|
                0 <= j < e ==> {
                    &&& (#[trigger] elems@[j])[0] == ints@[nelem + 4 * j] - 1
                    &&& elems@[j][1] == ints@[nelem + 4 * j + 1] - 1
                    &&& elems@[j][2] == ints@[nelem + 4 * j + 2] - 1
                    &&& elems@[j][3] == ints@[nelem + 4 * j + 3] - 1
                },
            forall|j: int, c: int| 0 <= j < e && 0 <= c < 4 ==> (#[trigger] elems@[j][c]) < nvert,
        decreases nelem - e,
    {
        assert(nelem + 4 * e + 3 < 5 * nelem) by (nonlinear_arith)
            requires
                e < nelem,
        ;
        let b: usize = nelem + 4 * e;
        let c0: usize = ints[b];
        if c0 < 1 || c0 > nvert {
            return Err(ReconstructError::VertexIndexOutOfRange { element: e, corner: 0, index: c0 });
        }
        let c1: usize = ints[b + 1];
        if c1 < 1 || c1 > nvert {
            return Err(ReconstructError::VertexIndexOutOfRange { element: e, corner: 1, index: c1 });
        }
        let c2: usize = ints[b + 2];
        if c2 < 1 || c2 > nvert {
            return Err(ReconstructError::VertexIndexOutOfRange { element: e, corner: 2, index: c2 });
        }
        let c3: usize = ints[b + 3];
        if c3 < 1 || c3 > nvert {
            return Err(ReconstructError::VertexIndexOutOfRange { element: e, corner: 3, index: c3 });
        }
        let corners: [usize; 4] = [c0 - 1, c1 - 1, c2 - 1, c3 - 1];
        elems.push(corners);
        e = e + 1;
    }
    Ok(elems)
}

/// Rebuilds the mesh that `doc` describes.
///
/// The first zone's floats hold the X, Y and Z columns of the vertices and
/// then those of the first field; its integers hold one submesh tag per
/// element and then the four one-based corners of each element. Each later
/// zone holds the X, Y and Z columns of one more field. Any other token count,
/// or a corner that names no vertex, is an error: see [`reconstruct_error`].
pub fn create_mesh_from_document<F: Copy>(doc: Document<F>) -> (r: Result<Mesh<F>, ReconstructError>)
    ensures
        match r {
            Ok(mesh) => {
                &&& reconstruct_error(doc) is None
                &&& mesh_of_document(doc, mesh)
                &&& mesh.well_formed()
            },
            Err(e) => reconstruct_error(doc) == Some(e),
        },
{
    let nvert: usize = doc.first_zone.no_of_vertices;
    let nelem: usize = doc.first_zone.no_of_elements;
    let floats: &Vec<F> = &doc.first_zone.float_list;
    let ints: &Vec<usize> = &doc.first_zone.integer_list;
    if let Some(e) = check_count(0, StreamKind::Integers, nelem, 5, ints.len()) {
        return Err(e);
    }
    if let Some(e) = check_count(0, StreamKind::Floats, nvert, 6, floats.len()) {
        return Err(e);
    }
    let empty: Vec<Zone<F>> = Vec::new();
    let zones: &Vec<Zone<F>> = match &doc.zones {
        Some(z) => z,
        None => &empty,
    };
    assert(zones@ == doc.later_zones());
    let mut k: usize = 0;
    while k < zones.len()
        invariant
            k <= zones@.len(),
            zones@ == doc.later_zones(),
            nvert == doc.first_zone.no_of_vertices,
            nelem == doc.first_zone.no_of_elements,
            count_error(0, StreamKind::Integers, 5 * nelem, doc.first_zone.integer_list@.len() as int) is None,
            count_error(0, StreamKind::Floats, 6 * nvert, doc.first_zone.float_list@.len() as int) is None,
            zones_count_error(zones@, nvert as int, 0) == zones_count_error(zones@, nvert as int, k as int),
            forall|j: int| 0 <= j < k ==> (#[trigger] zones@[j]).float_list@.len() == 3 * nvert,
        decreases zones@.len() - k,
    {
        if let Some(e) = check_count(k + 1, StreamKind::Floats, nvert, 3, zones[k].float_list.len()) {
            return Err(e);
        }
        k = k + 1;
    }
    assert(zones_count_error(zones@, nvert as int, k as int) is None);
    let elements: Vec<[usize; 4]> = match connectivity(ints, nelem, nvert) {
        Ok(elems) => elems,
        Err(e) => {
            return Err(e);
        },
    };
    let submesh_indices: Vec<usize> = prefix(ints, nelem);
    let vertices: Vec<[F; 3]> = gather_rows(floats, 0, nvert);
    let mut fields: Vec<Field<F>> = Vec::new();
    fields.push(Field { label: doc.first_zone.title.clone(), vectors: gather_rows(floats, 3 * nvert, nvert) });
    let mut k: usize = 0;
    while k < zones.len()
        invariant
            k <= zones@.len(),
            forall|j: int| 0 <= j < zones@.len() ==> (#[trigger] zones@[j]).float_list@.len() == 3 * nvert,
            fields@.len() == k + 1,
            fields@[0].label@ == doc.first_zone.title@,
            rows_of_columns(fields@[0].vectors@, floats@, 3 * nvert, nvert as int),
            forall|j: int|
                0 <= j < k ==> {
                    &&& (#[trigger] fields@[j + 1]).label@ == zones@[j].title@
                    &&& rows_of_columns(fields@[j + 1].vectors@, zones@[j].float_list@, 0, nvert as int)
                },
        decreases zones@.len() - k,
    {
        let vectors: Vec<[F; 3]> = gather_rows(&zones[k].float_list, 0, nvert);
        fields.push(Field { label: zones[k].title.clone(), vectors });
        k = k + 1;
    }
    let mesh = Mesh {
        label: doc.title.clone(),
        vertices,
        elements,
        submesh_indices,
        fields,
        volume: None,
        net_moments: None,
    };
    assert forall|j: int| 0 <= j < mesh.fields@.len() implies (#[trigger] mesh.fields@[j]).vectors@.len()
        == mesh.vertices@.len() by {
        if j > 0 {
            let i = j - 1;
            assert(mesh.fields@[i + 1].vectors@.len() == nvert);
        }
    }
    assert(mesh.well_formed());
    Ok(mesh)
}

/// Rows gathered from the same columns are the same rows.
proof fn lemma_rows_of_columns_unique<F>(r1: Seq<[F; 3]>, r2: Seq<[F; 3]>, flat: Seq<F>, start: int, n: int)
    requires
        rows_of_columns(r1, flat, start, n),
        rows_of_columns(r2, flat, start, n),
    ensures
        r1 == r2,
{
    assert forall|i: int| 0 <= i < n implies r1[i] == r2[i] by {
        assert(r1[i] =~= r2[i]);
    }
    assert(r1 =~= r2);
}

/// A mesh rebuilt from a document has one vertex per declared vertex and one
/// element per declared element.
pub proof fn lemma_mesh_sizes<F>(doc: Document<F>, mesh: Mesh<F>)
    requires
        mesh_of_document(doc, mesh),
    ensures
        mesh.vertices@.len() == doc.first_zone.no_of_vertices,
        mesh.elements@.len() == doc.first_zone.no_of_elements,
        mesh.fields@.len() == doc.later_zones().len() + 1,
{
}

/// Rebuilding is deterministic: two meshes rebuilt from one document hold
/// the same label, vertices, elements, submesh tags and fields.
pub proof fn lemma_reconstruction_deterministic<F>(doc: Document<F>, m1: Mesh<F>, m2: Mesh<F>)
    requires
        mesh_of_document(doc, m1),
        mesh_of_document(doc, m2),
    ensures
        m1.label@ == m2.label@,
        m1.vertices@ == m2.vertices@,
        m1.elements@ == m2.elements@,
        m1.submesh_indices@ == m2.submesh_indices@,
        m1.fields@.len() == m2.fields@.len(),
        forall|k: int|
            0 <= k < m1.fields@.len() ==> {
                &&& (#[trigger] m1.fields@[k]).label@ == m2.fields@[k].label@
                &&& m1.fields@[k].vectors@ == m2.fields@[k].vectors@
            },
        m1.volume == m2.volume,
        m1.net_moments == m2.net_moments,
{
    let fz = doc.first_zone;
    let nvert = fz.no_of_vertices as int;
    let nelem = fz.no_of_elements as int;
    let zones = doc.later_zones();
    lemma_rows_of_columns_unique(m1.vertices@, m2.vertices@, fz.float_list@, 0, nvert);
    assert forall|e: int| 0 <= e < nelem implies m1.elements@[e] == m2.elements@[e] by {
        assert(m1.elements@[e] =~= m2.elements@[e]);
    }
    assert(m1.elements@ =~= m2.elements@);
    lemma_rows_of_columns_unique(m1.fields@[0].vectors@, m2.fields@[0].vectors@, fz.float_list@, 3 * nvert, nvert);
    assert forall|k: int| 0 <= k < m1.fields@.len() implies {
        &&& (#[trigger] m1.fields@[k]).label@ == m2.fields@[k].label@
        &&& m1.fields@[k].vectors@ == m2.fields@[k].vectors@
    } by {
        if k > 0 {
            let j = k - 1;
            assert(m1.fields@[j + 1].label@ == zones[j].title@);
            assert(m2.fields@[j + 1].label@ == zones[j].title@);
            lemma_rows_of_columns_unique(
                m1.fields@[j + 1].vectors@,
                m2.fields@[j + 1].vectors@,
                zones[j].float_list@,
                0,
                nvert,
            );
        }
    }
}

impl<F> Mesh<F> {
    /// Every corner names a vertex, every element has a submesh tag, and
    /// every field has one vector per vertex.
    pub open spec fn well_formed(&self) -> bool {
        &&& self.submesh_indices@.len() == self.elements@.len()
        &&& forall|e: int, c: int|
            0 <= e < self.elements@.len() && 0 <= c < 4 ==> (#[trigger] self.elements@[e][c]) < self.vertices@.len()
        &&& forall|k: int|
            0 <= k < self.fields@.len() ==> (#[trigger] self.fields@[k]).vectors@.len() == self.vertices@.len()
    }

    /// A mesh with the given parts and no derived quantities yet.
    pub fn new(
        label: String,
        vertices: Vec<[F; 3]>,
        elements: Vec<[usize; 4]>,
        submesh_indices: Vec<usize>,
        fields: Vec<Field<F>>,
    ) -> (r: Mesh<F>)
        ensures
            r.label == label,
            r.vertices == vertices,
            r.elements == elements,
            r.submesh_indices == submesh_indices,
            r.fields == fields,
            r.volume is None,
            r.net_moments is None,
    {
        Mesh { label, vertices, elements, submesh_indices, fields, volume: None, net_moments: None }
    }
}

impl<F: Copy> Mesh<F> {
    /// The positions of the four corners of element `e`, in corner order.
    pub fn element_vertices(&self, e: usize) -> (r: [[F; 3]; 4])
        requires
            self.well_formed(),
            e < self.elements@.len(),
        ensures
            forall|c: int| 0 <= c < 4 ==> #[trigger] r[c] == self.vertices@[self.elements@[e as int][c] as int],
    {
        let corners: [usize; 4] = self.elements[e];
        assert(corners[0] < self.vertices@.len() && corners[1] < self.vertices@.len());
        assert(corners[2] < self.vertices@.len() && corners[3] < self.vertices@.len());
        let r: [[F; 3]; 4] = [
            self.vertices[corners[0]],
            self.vertices[corners[1]],
            self.vertices[corners[2]],
            self.vertices[corners[3]],
        ];
        assert forall|c: int| 0 <= c < 4 implies #[trigger] r[c] == self.vertices@[self.elements@[e as int][c] as int] by {
            assert(c == 0 || c == 1 || c == 2 || c == 3);
        }
        r
    }

    /// The vectors of field `k` at the four corners of element `e`, in
    /// corner order.
    pub fn element_field_vectors(&self, k: usize, e: usize) -> (r: [[F; 3]; 4])
        requires
            self.well_formed(),
            k < self.fields@.len(),
            e < self.elements@.len(),
        ensures
            forall|c: int|
                0 <= c < 4 ==> #[trigger] r[c] == self.fields@[k as int].vectors@[self.elements@[e as int][c] as int],
    {
        let corners: [usize; 4] = self.elements[e];
        let vectors: &Vec<[F; 3]> = &self.fields[k].vectors;
        assert(vectors@.len() == self.vertices@.len());
        assert(corners[0] < self.vertices@.len() && corners[1] < self.vertices@.len());
        assert(corners[2] < self.vertices@.len() && corners[3] < self.vertices@.len());
        let r: [[F; 3]; 4] = [vectors[corners[0]], vectors[corners[1]], vectors[corners[2]], vectors[corners[3]]];
        assert forall|c: int|
            0 <= c < 4 implies #[trigger] r[c] == self.fields@[k as int].vectors@[self.elements@[e as int][c] as int] by {
            assert(c == 0 || c == 1 || c == 2 || c == 3);
        }
        r
    }
}

} // verus!
