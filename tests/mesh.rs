use tec2hdf5::{create_mesh_from_document, Document, Field, FirstZone, Mesh, ReconstructError, StreamKind, Zone};

fn one_tet(ints: Vec<usize>, floats: Vec<i64>, zones: Option<Vec<Zone<i64>>>) -> Document<i64> {
    Document {
        title: "\"t\"".to_string(),
        variables: vec!["\"X\"".to_string(), "\"Y\"".to_string(), "\"Z\"".to_string()],
        first_zone: FirstZone {
            title: "\"f\"".to_string(),
            no_of_vertices: 4,
            no_of_elements: 1,
            float_list: floats,
            integer_list: ints,
        },
        zones,
    }
}

fn coords_and_field() -> Vec<i64> {
    // X, Y, Z columns, then the field's X, Y, Z columns.
    (0..24).collect()
}

fn zone(n: usize) -> Zone<i64> {
    Zone { title: "\"z\"".to_string(), no_of_vertices: 4, no_of_elements: 1, float_list: (100..100 + n as i64).collect() }
}

#[test]
fn rebuilds_vertices_elements_and_fields() {
    let doc = one_tet(vec![9, 4, 3, 2, 1], coords_and_field(), Some(vec![zone(12)]));
    let mesh = create_mesh_from_document(doc).unwrap();
    assert_eq!(mesh.label, "\"t\"");
    assert_eq!(mesh.vertices, vec![[0, 4, 8], [1, 5, 9], [2, 6, 10], [3, 7, 11]]);
    assert_eq!(mesh.elements, vec![[3, 2, 1, 0]]);
    assert_eq!(mesh.submesh_indices, vec![9]);
    assert_eq!(mesh.fields.len(), 2);
    assert_eq!(mesh.fields[0].label, "\"f\"");
    assert_eq!(mesh.fields[0].vectors, vec![[12, 16, 20], [13, 17, 21], [14, 18, 22], [15, 19, 23]]);
    assert_eq!(mesh.fields[1].label, "\"z\"");
    assert_eq!(mesh.fields[1].vectors[3], [103, 107, 111]);
    assert!(mesh.volume.is_none());
    assert!(mesh.net_moments.is_none());
    assert_eq!(mesh.element_vertices(0), [[3, 7, 11], [2, 6, 10], [1, 5, 9], [0, 4, 8]]);
    assert_eq!(mesh.element_field_vectors(1, 0)[0], [103, 107, 111]);
}

#[test]
fn sizes_follow_the_header_counts() {
    let doc = one_tet(vec![1, 1, 2, 3, 4], coords_and_field(), None);
    let mesh = create_mesh_from_document(doc).unwrap();
    assert_eq!(mesh.vertices.len(), 4);
    assert_eq!(mesh.elements.len(), 1);
    assert_eq!(mesh.fields.len(), 1);
}

#[test]
fn rebuilding_twice_gives_the_same_mesh() {
    let a = create_mesh_from_document(one_tet(vec![1, 1, 2, 3, 4], coords_and_field(), Some(vec![zone(12)]))).unwrap();
    let b = create_mesh_from_document(one_tet(vec![1, 1, 2, 3, 4], coords_and_field(), Some(vec![zone(12)]))).unwrap();
    assert_eq!(a.label, b.label);
    assert_eq!(a.vertices, b.vertices);
    assert_eq!(a.elements, b.elements);
    assert_eq!(a.submesh_indices, b.submesh_indices);
    for k in 0..a.fields.len() {
        assert_eq!(a.fields[k].label, b.fields[k].label);
        assert_eq!(a.fields[k].vectors, b.fields[k].vectors);
    }
}

#[test]
fn an_integer_stream_short_by_one_token_is_rejected() {
    let r = create_mesh_from_document(one_tet(vec![1, 1, 2, 3], coords_and_field(), None));
    assert_eq!(
        r.err(),
        Some(ReconstructError::TooFewTokens { zone: 0, stream: StreamKind::Integers, expected: 5, found: 4 })
    );
}

#[test]
fn an_integer_stream_long_by_one_token_is_rejected() {
    let r = create_mesh_from_document(one_tet(vec![1, 1, 2, 3, 4, 4], coords_and_field(), None));
    assert_eq!(
        r.err(),
        Some(ReconstructError::TooManyTokens { zone: 0, stream: StreamKind::Integers, expected: 5, found: 6 })
    );
}

#[test]
fn a_float_stream_of_the_wrong_length_is_rejected() {
    let r = create_mesh_from_document(one_tet(vec![1, 1, 2, 3, 4], (0..23).collect(), None));
    assert_eq!(
        r.err(),
        Some(ReconstructError::TooFewTokens { zone: 0, stream: StreamKind::Floats, expected: 24, found: 23 })
    );
    let r = create_mesh_from_document(one_tet(vec![1, 1, 2, 3, 4], (0..25).collect(), None));
    assert_eq!(
        r.err(),
        Some(ReconstructError::TooManyTokens { zone: 0, stream: StreamKind::Floats, expected: 24, found: 25 })
    );
}

#[test]
fn a_later_zone_of_the_wrong_length_is_rejected() {
    let r = create_mesh_from_document(one_tet(vec![1, 1, 2, 3, 4], coords_and_field(), Some(vec![zone(12), zone(11)])));
    assert_eq!(
        r.err(),
        Some(ReconstructError::TooFewTokens { zone: 2, stream: StreamKind::Floats, expected: 12, found: 11 })
    );
}

#[test]
fn corners_that_name_no_vertex_are_rejected() {
    let r = create_mesh_from_document(one_tet(vec![1, 1, 2, 5, 4], coords_and_field(), None));
    assert_eq!(r.err(), Some(ReconstructError::VertexIndexOutOfRange { element: 0, corner: 2, index: 5 }));
    let r = create_mesh_from_document(one_tet(vec![1, 0, 2, 3, 4], coords_and_field(), None));
    assert_eq!(r.err(), Some(ReconstructError::VertexIndexOutOfRange { element: 0, corner: 0, index: 0 }));
}

#[test]
fn counts_are_checked_before_corners() {
    let r = create_mesh_from_document(one_tet(vec![1, 0, 2, 3, 4], coords_and_field(), Some(vec![zone(13)])));
    assert_eq!(
        r.err(),
        Some(ReconstructError::TooManyTokens { zone: 1, stream: StreamKind::Floats, expected: 12, found: 13 })
    );
}

#[test]
fn an_empty_document_gives_an_empty_mesh() {
    let doc = Document::<i64> {
        title: String::new(),
        variables: vec![],
        first_zone: FirstZone {
            title: String::new(),
            no_of_vertices: 0,
            no_of_elements: 0,
            float_list: vec![],
            integer_list: vec![],
        },
        zones: Some(vec![]),
    };
    let mesh = create_mesh_from_document(doc).unwrap();
    assert!(mesh.vertices.is_empty());
    assert!(mesh.elements.is_empty());
    assert_eq!(mesh.fields.len(), 1);
}

#[test]
fn new_mesh_has_no_derived_quantities() {
    let mesh = Mesh::new(
        "m".to_string(),
        vec![[0.0, 0.0, 0.0]],
        vec![],
        vec![],
        vec![Field { label: "f".to_string(), vectors: vec![[1.0, 0.0, 0.0]] }],
    );
    assert_eq!(mesh.label, "m");
    assert_eq!(mesh.fields.len(), 1);
    assert!(mesh.volume.is_none());
    assert!(mesh.net_moments.is_none());
}
