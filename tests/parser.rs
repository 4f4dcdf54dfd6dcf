use tec2hdf5::{parse_document, parse_title, parse_variables, Document, ParseError, ParseErrorKind};

#[test]
fn test_title() {
    let result = parse_title("TITLE = \"My test title\"").expect("Parse failed");
    let expected: String = "\"My test title\"".to_string();
    assert_eq!(result, expected);
}

#[test]
fn test_variables() {
    let result = parse_variables("VARIABLES = \"x\", \"y\", \"z\"").expect("Parse failed");
    let expected = vec!["\"x\"", "\"y\"", "\"z\""];
    assert_eq!(result.len(), expected.len());
    for i in 0..result.len() {
        assert_eq!(result[i], expected[i]);
    }
}

const ONE_TET: &str = "TITLE = \"t\"\n\
VARIABLES = \"X\",\"Y\",\"Z\",\"Mx\",\"My\",\"Mz\",\"SD\"\n\
ZONE T=\"first\", N=4, E=1, F=FEBLOCK, ET=TETRAHEDRON, VARLOCATION=([1-6]=NODAL, [7]=CELLCENTERED)\n\
 0.0 1.0 0.0 0.0\n 0.0 0.0 1.0 0.0\n 0.0 0.0 0.0 1.0\n\
 1.0E+00 1.0E+00 1.0E+00 1.0E+00\n 0.0 0.0 0.0 0.0\n -0.5e-1 .5 5. +2.0\n\
 1\n 1 2 3 4\n";

const TWO_ZONES: &str = "TITLE = \"Histo two zones\"\n\
VARIABLES = \"X\", \"Y\", \"Z\", \"Mx\", \"My\", \"Mz\", \"SD\"\n\
ZONE T=\"400.0000 mT\", N=4, E=1, F=FEBLOCK\n\
 0.0 1.0 0.0 0.0 0.0 0.0 1.0 0.0 0.0 0.0 0.0 1.0\n\
 1.0 1.0 1.0 1.0 0.0 0.0 0.0 0.0 0.0 0.0 0.0 0.0\n\
 7 1 2 3 4\n\
ZONE T=\"380.0000 mT\", N=4, E=1, F=FEBLOCK, VARSHARELIST=([1-3,7]=1), CONNECTIVITYSHAREZONE=1\n\
 2 2.0 2.0 2.0 0.0 0.0 0.0 0.0 0.0 0.0 0.0 0.0\n";

#[test]
fn parses_a_one_zone_document() {
    let doc = parse_document(ONE_TET).expect("Parse failed");
    assert_eq!(doc.title, "\"t\"");
    assert_eq!(doc.variables, vec!["\"X\"", "\"Y\"", "\"Z\"", "\"Mx\"", "\"My\"", "\"Mz\"", "\"SD\""]);
    assert_eq!(doc.first_zone.title, "\"first\"");
    assert_eq!(doc.first_zone.no_of_vertices, 4);
    assert_eq!(doc.first_zone.no_of_elements, 1);
    assert_eq!(doc.first_zone.float_list.len(), 24);
    assert_eq!(doc.first_zone.float_list[12], "1.0E+00");
    assert_eq!(doc.first_zone.float_list[20..24], ["-0.5e-1", ".5", "5.", "+2.0"]);
    assert_eq!(doc.first_zone.integer_list, vec![1, 1, 2, 3, 4]);
    assert!(doc.zones.is_none());
    for f in &doc.first_zone.float_list {
        assert!(f.parse::<f64>().is_ok());
    }
}

#[test]
fn parses_a_two_zone_document() {
    let doc = parse_document(TWO_ZONES).expect("Parse failed");
    assert_eq!(doc.title, "\"Histo two zones\"");
    assert_eq!(doc.first_zone.title, "\"400.0000 mT\"");
    assert_eq!(doc.first_zone.integer_list, vec![7, 1, 2, 3, 4]);
    assert_eq!(doc.first_zone.float_list.len(), 24);
    let zones = doc.zones.expect("a second zone");
    assert_eq!(zones.len(), 1);
    assert_eq!(zones[0].title, "\"380.0000 mT\"");
    assert_eq!(zones[0].no_of_vertices, 4);
    assert_eq!(zones[0].no_of_elements, 1);
    // In a later zone a token of digits alone is a float.
    assert_eq!(zones[0].float_list.len(), 12);
    assert_eq!(zones[0].float_list[0], "2");
}

#[test]
fn a_later_zone_may_omit_the_element_count() {
    let text = "TITLE=\"a\" VARIABLES=\"X\",\"Y\",\"Z\" ZONE T=\"\" N=0 E=0 ZONE T=\"b\" N=0";
    let doc = parse_document(text).expect("Parse failed");
    assert_eq!(doc.first_zone.title, "\"\"");
    let zones = doc.zones.unwrap();
    assert_eq!(zones[0].no_of_elements, 0);
    assert!(zones[0].float_list.is_empty());
}

fn error_of(text: &str) -> ParseError {
    match parse_document(text) {
        Ok(_) => panic!("parsed"),
        Err(e) => e,
    }
}

#[test]
fn reports_a_variable_list_without_three_coordinates() {
    let text = "TITLE=\"a\"\nVARIABLES=\"X\", \"Y\"\nZONE T=\"z\", N=0, E=0\n";
    assert_eq!(error_of(text), ParseError { position: 10, kind: ParseErrorKind::TooFewVariables });
    assert_eq!(
        parse_variables("VARIABLES = \"x\""),
        Err(ParseError { position: 0, kind: ParseErrorKind::TooFewVariables })
    );
}

#[test]
fn reports_a_missing_title_keyword() {
    assert_eq!(error_of("  VARIABLES = \"X\""), ParseError { position: 2, kind: ParseErrorKind::ExpectedKeyword });
}

#[test]
fn reports_a_missing_equals_sign() {
    assert_eq!(error_of("TITLE \"t\""), ParseError { position: 6, kind: ParseErrorKind::ExpectedEquals });
}

#[test]
fn reports_an_unterminated_string() {
    assert_eq!(error_of("TITLE = \"t"), ParseError { position: 8, kind: ParseErrorKind::UnterminatedString });
}

#[test]
fn reports_a_missing_string() {
    assert_eq!(error_of("TITLE = t"), ParseError { position: 8, kind: ParseErrorKind::ExpectedString });
}

#[test]
fn reports_a_missing_vertex_count() {
    let text = "TITLE=\"a\"\nVARIABLES=\"X\",\"Y\",\"Z\"\nZONE T=\"z\", E=1\n";
    assert_eq!(error_of(text), ParseError { position: 32, kind: ParseErrorKind::MissingVertexCount });
}

#[test]
fn reports_a_missing_element_count_in_the_first_zone() {
    let text = "TITLE=\"a\"\nVARIABLES=\"X\",\"Y\",\"Z\"\nZONE T=\"z\", N=1\n";
    assert_eq!(error_of(text), ParseError { position: 32, kind: ParseErrorKind::MissingElementCount });
}

#[test]
fn reports_a_missing_zone_title() {
    let text = "TITLE=\"a\"\nVARIABLES=\"X\",\"Y\",\"Z\"\nZONE N=1, E=1\n";
    assert_eq!(error_of(text), ParseError { position: 32, kind: ParseErrorKind::MissingTitle });
}

#[test]
fn reports_a_non_integer_count() {
    let text = "TITLE=\"a\"\nVARIABLES=\"X\",\"Y\",\"Z\"\nZONE T=\"z\", N=1.5, E=1\n";
    assert_eq!(error_of(text), ParseError { position: 46, kind: ParseErrorKind::ExpectedInteger });
}

#[test]
fn reports_an_integer_too_large() {
    let text = "TITLE=\"a\"\nVARIABLES=\"X\",\"Y\",\"Z\"\nZONE T=\"z\", N=1, E=1\n 99999999999999999999999\n";
    assert_eq!(error_of(text), ParseError { position: 54, kind: ParseErrorKind::IntegerTooLarge });
}

#[test]
fn reports_a_dangling_comma() {
    let text = "TITLE=\"a\"\nVARIABLES=\"X\",\"Y\",\"Z\"\nZONE T=\"z\", N=1, E=1,\n 1.0\n";
    assert_eq!(error_of(text), ParseError { position: 55, kind: ParseErrorKind::ExpectedEntry });
}

#[test]
fn reports_an_unclosed_group() {
    let text = "TITLE=\"a\"\nVARIABLES=\"X\",\"Y\",\"Z\"\nZONE T=\"z\", N=1, E=1, V=([1]=NODAL\n";
    assert_eq!(error_of(text), ParseError { position: 56, kind: ParseErrorKind::UnbalancedParenthesis });
}

#[test]
fn reports_a_missing_value() {
    let text = "TITLE=\"a\"\nVARIABLES=\"X\",\"Y\",\"Z\"\nZONE T=\"z\", N=1, E=1, F=,\n";
    assert_eq!(error_of(text), ParseError { position: 56, kind: ParseErrorKind::ExpectedValue });
}

#[test]
fn reports_a_token_that_is_not_a_number() {
    let text = "TITLE=\"a\"\nVARIABLES=\"X\",\"Y\",\"Z\"\nZONE T=\"z\", N=1, E=1\n 1.0 1.0.0\n";
    assert_eq!(error_of(text), ParseError { position: 58, kind: ParseErrorKind::ExpectedKeyword });
}

#[test]
fn reports_text_that_is_not_ascii() {
    assert_eq!(error_of("TITLE = \"\u{e9}\""), ParseError { position: 0, kind: ParseErrorKind::NotAscii });
}

#[test]
fn title_alone_rejects_trailing_text() {
    assert_eq!(
        parse_title("TITLE = \"a\" x"),
        Err(ParseError { position: 12, kind: ParseErrorKind::UnexpectedText })
    );
    assert_eq!(parse_variables(" VARIABLES = \"a\" ,\"b\",\"c\"\n").unwrap(), vec!["\"a\"", "\"b\"", "\"c\""]);
}

fn floats_of(doc: Document<String>) -> Document<f64> {
    let conv = |v: Vec<String>| v.iter().map(|s| s.parse::<f64>().unwrap()).collect::<Vec<f64>>();
    Document {
        title: doc.title,
        variables: doc.variables,
        first_zone: tec2hdf5::FirstZone {
            title: doc.first_zone.title,
            no_of_vertices: doc.first_zone.no_of_vertices,
            no_of_elements: doc.first_zone.no_of_elements,
            float_list: conv(doc.first_zone.float_list),
            integer_list: doc.first_zone.integer_list,
        },
        zones: doc.zones.map(|zs| {
            zs.into_iter()
                .map(|z| tec2hdf5::Zone {
                    title: z.title,
                    no_of_vertices: z.no_of_vertices,
                    no_of_elements: z.no_of_elements,
                    float_list: conv(z.float_list),
                })
                .collect()
        }),
    }
}

fn tet_volume(v: [[f64; 3]; 4]) -> f64 {
    let e = |a: usize| [v[a][0] - v[0][0], v[a][1] - v[0][1], v[a][2] - v[0][2]];
    let (a, b, c) = (e(1), e(2), e(3));
    (a[0] * (b[1] * c[2] - b[2] * c[1]) - a[1] * (b[0] * c[2] - b[2] * c[0]) + a[2] * (b[0] * c[1] - b[1] * c[0]))
        / 6.0
}

#[test]
fn unit_tetrahedron_end_to_end() {
    let doc = floats_of(parse_document(ONE_TET).unwrap());
    let mesh = tec2hdf5::create_mesh_from_document(doc).unwrap();
    assert_eq!(mesh.label, "\"t\"");
    assert_eq!(mesh.elements, vec![[0, 1, 2, 3]]);
    assert_eq!(mesh.submesh_indices, vec![1]);
    assert_eq!(mesh.vertices, vec![[0.0, 0.0, 0.0], [1.0, 0.0, 0.0], [0.0, 1.0, 0.0], [0.0, 0.0, 1.0]]);
    assert_eq!(mesh.fields.len(), 1);
    assert_eq!(mesh.fields[0].label, "\"first\"");
    assert_eq!(mesh.fields[0].vectors[1], [1.0, 0.0, 0.5]);
    let volume = tet_volume(mesh.element_vertices(0)).abs();
    assert!((volume - 1.0 / 6.0).abs() < 1e-15);
}

#[test]
fn two_zone_document_gives_two_fields() {
    let doc = floats_of(parse_document(TWO_ZONES).unwrap());
    let mesh = tec2hdf5::create_mesh_from_document(doc).unwrap();
    assert_eq!(mesh.submesh_indices, vec![7]);
    assert_eq!(mesh.fields.len(), 2);
    assert_eq!(mesh.fields[1].label, "\"380.0000 mT\"");
    assert_eq!(mesh.fields[1].vectors, vec![[2.0, 0.0, 0.0]; 4]);
    assert_eq!(mesh.element_field_vectors(1, 0), [[2.0, 0.0, 0.0]; 4]);
}
