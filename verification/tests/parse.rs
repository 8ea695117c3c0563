use fem_mesh::{parse_mesh, MeshDocument, ParseError};

fn parse_str(s: &str) -> Result<MeshDocument, ParseError> {
    parse_mesh(&s.as_bytes().to_vec())
}

fn as_f64(token: &[u8]) -> f64 {
    std::str::from_utf8(token).unwrap().parse::<f64>().unwrap()
}

#[test]
fn example_document() {
    let doc = parse_str(
        "SimulationTime 10.0\nConductivity 5.5\nNodes N 3\n*Node\n1, 0.0, 0.0\n2, 1.0, 0.0\n3, 0.0, 1.0\n*Element\n1, 1, 2, 3, 3\n*BC\n1, 2",
    )
    .unwrap();
    assert_eq!(as_f64(&doc.global.simulation_time), 10.0);
    assert_eq!(as_f64(&doc.global.conductivity), 5.5);
    assert_eq!(doc.global.n_n, 3);
    assert_eq!(doc.nodes.len(), 3);
    assert_eq!(doc.nodes[0].id, 1);
    assert_eq!(as_f64(&doc.nodes[0].x), 0.0);
    assert_eq!(as_f64(&doc.nodes[0].y), 0.0);
    assert_eq!(doc.nodes[1].id, 2);
    assert_eq!(as_f64(&doc.nodes[1].x), 1.0);
    assert_eq!(as_f64(&doc.nodes[1].y), 0.0);
    assert_eq!(doc.nodes[2].id, 3);
    assert_eq!(as_f64(&doc.nodes[2].x), 0.0);
    assert_eq!(as_f64(&doc.nodes[2].y), 1.0);
    assert_eq!(doc.elements.len(), 1);
    assert_eq!(doc.elements[0].id, 1);
    assert_eq!(doc.elements[0].nodes, [1, 2, 3, 3]);
    assert_eq!(doc.boundary_conditions, vec![1, 2]);
}

#[test]
fn node_row_with_two_fields_is_field_arity_failure() {
    let r = parse_str("*Node\n1, 0.5\n");
    assert_eq!(r.unwrap_err(), ParseError::FieldArity { line: 2 });
}

#[test]
fn empty_input_yields_defaults() {
    let doc = parse_str("").unwrap();
    assert_eq!(as_f64(&doc.global.simulation_time), 0.0);
    assert_eq!(as_f64(&doc.global.simulation_step_time), 0.0);
    assert_eq!(as_f64(&doc.global.conductivity), 0.0);
    assert_eq!(as_f64(&doc.global.alfa), 0.0);
    assert_eq!(as_f64(&doc.global.tot), 0.0);
    assert_eq!(as_f64(&doc.global.initial_temp), 0.0);
    assert_eq!(as_f64(&doc.global.density), 0.0);
    assert_eq!(as_f64(&doc.global.specific_heat), 0.0);
    assert_eq!(doc.global.n_n, 0);
    assert_eq!(doc.global.n_e, 0);
    assert!(doc.nodes.is_empty());
    assert!(doc.elements.is_empty());
    assert!(doc.boundary_conditions.is_empty());
}

#[test]
fn all_global_parameters_are_stored() {
    let doc = parse_str(
        "SimulationTime 500\nSimulationStepTime 50\nConductivity 25\nAlfa 300\nTot 1200\nInitialTemp 100\nDensity 7800\nSpecificHeat 700\nNodes n 16\nElements e 9\n",
    )
    .unwrap();
    assert_eq!(as_f64(&doc.global.simulation_time), 500.0);
    assert_eq!(as_f64(&doc.global.simulation_step_time), 50.0);
    assert_eq!(as_f64(&doc.global.conductivity), 25.0);
    assert_eq!(as_f64(&doc.global.alfa), 300.0);
    assert_eq!(as_f64(&doc.global.tot), 1200.0);
    assert_eq!(as_f64(&doc.global.initial_temp), 100.0);
    assert_eq!(as_f64(&doc.global.density), 7800.0);
    assert_eq!(as_f64(&doc.global.specific_heat), 700.0);
    assert_eq!(doc.global.n_n, 16);
    assert_eq!(doc.global.n_e, 9);
}

#[test]
fn node_count_follows_rows_not_declared_count() {
    let doc = parse_str("Nodes N 1\n*Node\n1, 0.0, 0.0\n2, 1.0, 1.0\n3, 2.0, 2.0\n").unwrap();
    assert_eq!(doc.global.n_n, 1);
    assert_eq!(doc.nodes.len(), 3);
}

#[test]
fn boundary_list_counts_identifiers_not_lines() {
    let doc = parse_str("*BC\n1, 2, 3\n4\n5, 6\n").unwrap();
    assert_eq!(doc.boundary_conditions, vec![1, 2, 3, 4, 5, 6]);
}

#[test]
fn parsing_twice_yields_identical_documents() {
    let input = "Alfa 3.5\n*Node\n7, 1.25, -2.5\n*Element\n1, 7, 7, 7, 7\n*BC\n7";
    let a = parse_str(input).unwrap();
    let b = parse_str(input).unwrap();
    assert_eq!(a, b);
}

#[test]
fn global_key_after_header_is_not_a_parameter_line() {
    // Once a header has been seen, parameter lines are never parsed again: a
    // recognised key inside the node section is a malformed node row.
    let r = parse_str("Conductivity 1.5\n*Node\nConductivity 9.5\n");
    assert_eq!(r.unwrap_err(), ParseError::FieldArity { line: 3 });
}

#[test]
fn element_row_field_arity() {
    let r = parse_str("*Element\n1, 2, 3, 4\n");
    assert_eq!(r.unwrap_err(), ParseError::FieldArity { line: 2 });
    let r = parse_str("*Element\n1, 2, 3, 4, 5, 6\n");
    assert_eq!(r.unwrap_err(), ParseError::FieldArity { line: 2 });
}

#[test]
fn numeric_conversion_failures() {
    let r = parse_str("*Node\nx, 1.0, 2.0\n");
    assert_eq!(r.unwrap_err(), ParseError::NumericConversion { line: 2 });
    let r = parse_str("*Node\n1, abc, 2.0\n");
    assert_eq!(r.unwrap_err(), ParseError::NumericConversion { line: 2 });
    let r = parse_str("*Element\n1, 2, x, 4, 5\n");
    assert_eq!(r.unwrap_err(), ParseError::NumericConversion { line: 2 });
    let r = parse_str("*BC\n1, , 3\n");
    assert_eq!(r.unwrap_err(), ParseError::NumericConversion { line: 2 });
    let r = parse_str("Alfa abc\n");
    assert_eq!(r.unwrap_err(), ParseError::NumericConversion { line: 1 });
    let r = parse_str("Nodes N x\n");
    assert_eq!(r.unwrap_err(), ParseError::NumericConversion { line: 1 });
}

#[test]
fn scalar_key_without_value_is_field_arity_failure() {
    let r = parse_str("Alfa\n");
    assert_eq!(r.unwrap_err(), ParseError::FieldArity { line: 1 });
}

#[test]
fn count_key_needs_a_third_token() {
    let r = parse_str("Nodes 3\n");
    assert_eq!(r.unwrap_err(), ParseError::FieldArity { line: 1 });
    let doc = parse_str("Elements ignored 42\n").unwrap();
    assert_eq!(doc.global.n_e, 42);
}

#[test]
fn unknown_keys_are_ignored() {
    let doc = parse_str("Foo 1 2\nBar\n*node lowercase is no header\n").unwrap();
    assert!(doc.nodes.is_empty());
    assert_eq!(as_f64(&doc.global.simulation_time), 0.0);
}

#[test]
fn blank_lines_are_ignored_everywhere() {
    let doc = parse_str("\n  \nTot 2.5\n\n*Node\n\n1, 0.0, 0.0\n\t\n*BC\n\n4\n\n").unwrap();
    assert_eq!(as_f64(&doc.global.tot), 2.5);
    assert_eq!(doc.nodes.len(), 1);
    assert_eq!(doc.boundary_conditions, vec![4]);
}

#[test]
fn fields_are_trimmed_before_conversion() {
    let doc = parse_str("*Node\n  1 ,\t0.5 ,  -1.5\t\n").unwrap();
    assert_eq!(doc.nodes[0].id, 1);
    assert_eq!(as_f64(&doc.nodes[0].x), 0.5);
    assert_eq!(as_f64(&doc.nodes[0].y), -1.5);
}

#[test]
fn carriage_returns_are_tolerated() {
    let doc = parse_str("Density 2.0\r\n*Node\r\n1, 3.0, 4.0\r\n").unwrap();
    assert_eq!(as_f64(&doc.global.density), 2.0);
    assert_eq!(doc.nodes.len(), 1);
    assert_eq!(as_f64(&doc.nodes[0].y), 4.0);
}

#[test]
fn float_literal_forms_accepted() {
    let doc = parse_str(
        "SimulationTime 1e3\nConductivity -2.5E-2\nAlfa inf\nTot NaN\nDensity .5\nSpecificHeat 5.\nInitialTemp +0.25\n",
    )
    .unwrap();
    assert_eq!(as_f64(&doc.global.simulation_time), 1000.0);
    assert_eq!(as_f64(&doc.global.conductivity), -0.025);
    assert!(as_f64(&doc.global.alfa).is_infinite());
    assert!(as_f64(&doc.global.tot).is_nan());
    assert_eq!(as_f64(&doc.global.density), 0.5);
    assert_eq!(as_f64(&doc.global.specific_heat), 5.0);
    assert_eq!(as_f64(&doc.global.initial_temp), 0.25);
}

#[test]
fn more_float_literal_forms_accepted() {
    for good in [
        "1.e5", "+.5", "-5.", "INF", "Nan", "iNfInItY", "-inf", "0e0", "3E+4", "2e-1", "007",
    ] {
        let r = parse_str(&format!("Alfa {}\n", good));
        assert!(r.is_ok(), "expected acceptance of {:?}", good);
        let v = std::str::from_utf8(&r.unwrap().global.alfa)
            .unwrap()
            .parse::<f64>();
        assert!(v.is_ok(), "standard library rejects {:?}", good);
    }
}

#[test]
fn float_literal_forms_rejected() {
    for bad in [
        "1e", "1.2.3", "--5", ".", "e5", "5f", "in", "infinit", "nan7", "+", "-", "e", ".e5",
        "5e+", "5e-", "++5", "5..", "infinityy",
    ] {
        let r = parse_str(&format!("Alfa {}\n", bad));
        assert_eq!(
            r.unwrap_err(),
            ParseError::NumericConversion { line: 1 },
            "expected rejection of {:?}",
            bad
        );
    }
}

#[test]
fn identifier_forms() {
    let doc = parse_str("*BC\n+5, 0, 18446744073709551615\n").unwrap();
    assert_eq!(doc.boundary_conditions, vec![5, 0, usize::MAX]);
    let r = parse_str("*BC\n18446744073709551616\n");
    assert_eq!(r.unwrap_err(), ParseError::NumericConversion { line: 2 });
    let r = parse_str("*BC\n-3\n");
    assert_eq!(r.unwrap_err(), ParseError::NumericConversion { line: 2 });
}

#[test]
fn header_matching_is_by_prefix() {
    // "*Elements" begins with "*Element" and switches sections; an indented
    // header is no header at all (and, before any header, an ignored
    // parameter line).
    let doc = parse_str("*Elements\n1, 2, 3, 4, 5\n").unwrap();
    assert_eq!(doc.elements.len(), 1);
    let doc = parse_str("  *Node extra\n").unwrap();
    assert!(doc.nodes.is_empty());
}

#[test]
fn sections_may_repeat_and_accumulate() {
    let doc = parse_str("*Node\n1, 0.0, 0.0\n*BC\n9\n*Node\n2, 1.0, 1.0\n").unwrap();
    assert_eq!(doc.nodes.len(), 2);
    assert_eq!(doc.nodes[1].id, 2);
    assert_eq!(doc.boundary_conditions, vec![9]);
}

#[test]
fn element_order_is_preserved() {
    let doc = parse_str("*Element\n4, 9, 2, 7, 1\n").unwrap();
    assert_eq!(doc.elements[0].id, 4);
    assert_eq!(doc.elements[0].nodes, [9, 2, 7, 1]);
}
