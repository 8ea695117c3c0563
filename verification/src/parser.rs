//! The executable mesh parser, proved equal to the state machine of
//! `parse_spec` on every input.

use vstd::prelude::*;
use crate::floatlit::check_float_lit;
use crate::model::{Element, GlobalData, MeshDocument, Node, ParseError, Section};
use crate::parse_spec::{
    conv_bc, conv_element, conv_ids, conv_node, header_bc, header_element, header_node,
    init_state, is_blank, key_alfa, key_conductivity, key_density, key_elements,
    key_initial_temp, key_nodes, key_simulation_step_time, key_simulation_time,
    key_specific_heat, key_tot, parse_doc, run_from, scalar_value, count_value, spec_lines,
    starts_with, state_of, step_global, step_line, zero_lit, PState,
};
use crate::text::{parse_usize, split_bytes, trim_bytes, ws_tokens};

verus! {

/// Copies a byte vector.
fn copy_bytes(s: &Vec<u8>) -> (r: Vec<u8>)
    ensures
        r@ == s@,
{
    let mut r: Vec<u8> = Vec::new();
    let mut i: usize = 0;
    while i < s.len()
        invariant
            i <= s.len(),
            r@ =~= s@.take(i as int),
        decreases s.len() - i,
    {
        r.push(s[i]);
        i = i + 1;
    }
    assert(r@ =~= s@);
    r
}

/// Whether `t` holds exactly the bytes of `k`.
fn bytes_eq(t: &Vec<u8>, k: &[u8]) -> (r: bool)
    ensures
        r == (t@ == k@),
{
    if t.len() != k.len() {
        return false;
    }
    let mut i: usize = 0;
    while i < t.len()
        invariant
            i <= t.len(),
            t@.len() == k@.len(),
            forall|p: int| 0 <= p < i ==> t@[p] == k@[p],
        decreases t.len() - i,
    {
        if t[i] != k[i] {
            return false;
        }
        i = i + 1;
    }
    assert(t@ =~= k@);
    true
}

/// Whether `line` begins with the bytes of `p`.
fn has_prefix(line: &Vec<u8>, p: &[u8]) -> (r: bool)
    ensures
        r == starts_with(line@, p@),
{
    if line.len() < p.len() {
        return false;
    }
    let mut i: usize = 0;
    while i < p.len()
        invariant
            i <= p.len() <= line@.len(),
            forall|q: int| 0 <= q < i ==> line@[q] == p@[q],
        decreases p.len() - i,
    {
        if line[i] != p[i] {
            assert(line@.take(p@.len() as int)[i as int] == line@[i as int]);
            return false;
        }
        i = i + 1;
    }
    assert(line@.take(p@.len() as int) =~= p@);
    true
}

/// The literal `0` as a byte vector.
fn zero_vec() -> (r: Vec<u8>)
    ensures
        r@ == zero_lit(),
{
    let mut v: Vec<u8> = Vec::new();
    v.push(48);
    assert(v@ =~= zero_lit());
    v
}

/// Global parameters at their defaults.
fn initial_global() -> (g: GlobalData)
    ensures
        g@ == init_state().doc.global,
{
    GlobalData {
        simulation_time: zero_vec(),
        simulation_step_time: zero_vec(),
        conductivity: zero_vec(),
        alfa: zero_vec(),
        tot: zero_vec(),
        initial_temp: zero_vec(),
        density: zero_vec(),
        specific_heat: zero_vec(),
        n_n: 0,
        n_e: 0,
    }
}

/// Applies one global-parameter line to the parameters.
fn do_global(g: GlobalData, line: &Vec<u8>, lineno: usize) -> (r: Result<GlobalData, ParseError>)
    ensures
        match r {
            Ok(g2) => step_global(g@, line@, lineno) == Ok::<_, ParseError>(g2@),
            Err(e) => step_global(g@, line@, lineno) == Err::<crate::model::GlobalModel, _>(e),
        },
{
    let toks = ws_tokens(line);
    let ghost tv = crate::text::spec_ws_tokens(line@);
    if toks.len() == 0 {
        return Ok(g);
    }
    assert(tv[0] == toks@[0]@);
    let k_sim_time: [u8; 14] = [83, 105, 109, 117, 108, 97, 116, 105, 111, 110, 84, 105, 109, 101];
    let k_sim_step: [u8; 18] = [
        83,
        105,
        109,
        117,
        108,
        97,
        116,
        105,
        111,
        110,
        83,
        116,
        101,
        112,
        84,
        105,
        109,
        101,
    ];
    let k_cond: [u8; 12] = [67, 111, 110, 100, 117, 99, 116, 105, 118, 105, 116, 121];
    let k_alfa: [u8; 4] = [65, 108, 102, 97];
    let k_tot: [u8; 3] = [84, 111, 116];
    let k_init: [u8; 11] = [73, 110, 105, 116, 105, 97, 108, 84, 101, 109, 112];
    let k_dens: [u8; 7] = [68, 101, 110, 115, 105, 116, 121];
    let k_spec_heat: [u8; 12] = [83, 112, 101, 99, 105, 102, 105, 99, 72, 101, 97, 116];
    let k_nodes: [u8; 5] = [78, 111, 100, 101, 115];
    let k_elements: [u8; 8] = [69, 108, 101, 109, 101, 110, 116, 115];
    proof {
        assert(k_sim_time@ =~= key_simulation_time());
        assert(k_sim_step@ =~= key_simulation_step_time());
        assert(k_cond@ =~= key_conductivity());
        assert(k_alfa@ =~= key_alfa());
        assert(k_tot@ =~= key_tot());
        assert(k_init@ =~= key_initial_temp());
        assert(k_dens@ =~= key_density());
        assert(k_spec_heat@ =~= key_specific_heat());
        assert(k_nodes@ =~= key_nodes());
        assert(k_elements@ =~= key_elements());
    }
    let is_count_key = bytes_eq(&toks[0], k_nodes.as_slice()) || bytes_eq(
        &toks[0],
        k_elements.as_slice(),
    );
    if is_count_key {
        if toks.len() < 3 {
            assert(count_value(tv, lineno) == Err::<usize, _>(
                (ParseError::FieldArity { line: lineno }),
            ));
            return Err(ParseError::FieldArity { line: lineno });
        }
        assert(tv[2] == toks@[2]@);
        match parse_usize(&toks[2]) {
            None => {
                assert(count_value(tv, lineno) == Err::<usize, _>(
                    (ParseError::NumericConversion { line: lineno }),
                ));
                Err(ParseError::NumericConversion { line: lineno })
            },
            Some(n) => {
                assert(count_value(tv, lineno) == Ok::<_, ParseError>(n));
                if bytes_eq(&toks[0], k_nodes.as_slice()) {
                    Ok(GlobalData { n_n: n, ..g })
                } else {
                    Ok(GlobalData { n_e: n, ..g })
                }
            },
        }
    } else {
        let which: usize = if bytes_eq(&toks[0], k_sim_time.as_slice()) {
            1
        } else if bytes_eq(&toks[0], k_sim_step.as_slice()) {
            2
        } else if bytes_eq(&toks[0], k_cond.as_slice()) {
            3
        } else if bytes_eq(&toks[0], k_alfa.as_slice()) {
            4
        } else if bytes_eq(&toks[0], k_tot.as_slice()) {
            5
        } else if bytes_eq(&toks[0], k_init.as_slice()) {
            6
        } else if bytes_eq(&toks[0], k_dens.as_slice()) {
            7
        } else if bytes_eq(&toks[0], k_spec_heat.as_slice()) {
            8
        } else {
            0
        };
        if which == 0 {
            return Ok(g);
        }
        if toks.len() < 2 {
            assert(scalar_value(tv, lineno) == Err::<Seq<u8>, _>(
                (ParseError::FieldArity { line: lineno }),
            ));
            return Err(ParseError::FieldArity { line: lineno });
        }
        assert(tv[1] == toks@[1]@);
        if !check_float_lit(&toks[1]) {
            assert(scalar_value(tv, lineno) == Err::<Seq<u8>, _>(
                (ParseError::NumericConversion { line: lineno }),
            ));
            return Err(ParseError::NumericConversion { line: lineno });
        }
        assert(scalar_value(tv, lineno) == Ok::<_, ParseError>(tv[1]));
        let v = copy_bytes(&toks[1]);
        if which == 1 {
            Ok(GlobalData { simulation_time: v, ..g })
        } else if which == 2 {
            Ok(GlobalData { simulation_step_time: v, ..g })
        } else if which == 3 {
            Ok(GlobalData { conductivity: v, ..g })
        } else if which == 4 {
            Ok(GlobalData { alfa: v, ..g })
        } else if which == 5 {
            Ok(GlobalData { tot: v, ..g })
        } else if which == 6 {
            Ok(GlobalData { initial_temp: v, ..g })
        } else if which == 7 {
            Ok(GlobalData { density: v, ..g })
        } else {
            Ok(GlobalData { specific_heat: v, ..g })
        }
    }
}

/// Converts one node row.
fn do_node(line: &Vec<u8>, lineno: usize) -> (r: Result<Node, ParseError>)
    ensures
        match r {
            Ok(n) => conv_node(line@, lineno) == Ok::<_, ParseError>(n@),
            Err(e) => conv_node(line@, lineno) == Err::<crate::model::NodeModel, _>(e),
        },
{
    let fields = split_bytes(line, 44);
    let ghost fv = crate::text::spec_split(line@, 44);
    if fields.len() != 3 {
        return Err(ParseError::FieldArity { line: lineno });
    }
    assert(fv[0] == fields@[0]@ && fv[1] == fields@[1]@ && fv[2] == fields@[2]@);
    let f0 = trim_bytes(&fields[0]);
    let f1 = trim_bytes(&fields[1]);
    let f2 = trim_bytes(&fields[2]);
    match parse_usize(&f0) {
        None => Err(ParseError::NumericConversion { line: lineno }),
        Some(id) => {
            if !check_float_lit(&f1) {
                return Err(ParseError::NumericConversion { line: lineno });
            }
            if !check_float_lit(&f2) {
                return Err(ParseError::NumericConversion { line: lineno });
            }
            Ok(Node { id, x: f1, y: f2 })
        },
    }
}

/// Converts one element row.
fn do_element(line: &Vec<u8>, lineno: usize) -> (r: Result<Element, ParseError>)
    ensures
        match r {
            Ok(el) => conv_element(line@, lineno) == Ok::<_, ParseError>(el@),
            Err(e) => conv_element(line@, lineno) == Err::<crate::model::ElementModel, _>(e),
        },
{
    let fields = split_bytes(line, 44);
    let ghost fv = crate::text::spec_split(line@, 44);
    if fields.len() != 5 {
        return Err(ParseError::FieldArity { line: lineno });
    }
    assert(fv[0] == fields@[0]@ && fv[1] == fields@[1]@ && fv[2] == fields@[2]@ && fv[3]
        == fields@[3]@ && fv[4] == fields@[4]@);
    let f0 = trim_bytes(&fields[0]);
    let f1 = trim_bytes(&fields[1]);
    let f2 = trim_bytes(&fields[2]);
    let f3 = trim_bytes(&fields[3]);
    let f4 = trim_bytes(&fields[4]);
    let v0 = match parse_usize(&f0) {
        None => {
            return Err(ParseError::NumericConversion { line: lineno });
        },
        Some(v) => v,
    };
    let v1 = match parse_usize(&f1) {
        None => {
            return Err(ParseError::NumericConversion { line: lineno });
        },
        Some(v) => v,
    };
    let v2 = match parse_usize(&f2) {
        None => {
            return Err(ParseError::NumericConversion { line: lineno });
        },
        Some(v) => v,
    };
    let v3 = match parse_usize(&f3) {
        None => {
            return Err(ParseError::NumericConversion { line: lineno });
        },
        Some(v) => v,
    };
    let v4 = match parse_usize(&f4) {
        None => {
            return Err(ParseError::NumericConversion { line: lineno });
        },
        Some(v) => v,
    };
    let el = Element { id: v0, nodes: [v1, v2, v3, v4] };
    assert(el@.nodes =~= seq![v1, v2, v3, v4]);
    Ok(el)
}

/// Converts one boundary-condition row into the identifiers it contributes.
fn do_bc(line: &Vec<u8>, lineno: usize) -> (r: Result<Vec<usize>, ParseError>)
    ensures
        match r {
            Ok(ids) => conv_bc(line@, lineno) == Ok::<_, ParseError>(ids@),
            Err(e) => conv_bc(line@, lineno) == Err::<Seq<usize>, _>(e),
        },
{
    let fields = split_bytes(line, 44);
    let ghost fv = crate::text::spec_split(line@, 44);
    let mut ids: Vec<usize> = Vec::new();
    let mut i: usize = 0;
    assert(ids@ =~= Seq::<usize>::empty());
    while i < fields.len()
        invariant
            i <= fields@.len(),
            fv == fields@.map_values(|f: Vec<u8>| f@),
            conv_bc(line@, lineno) == conv_ids(fv, i as int, ids@, lineno),
        decreases fields@.len() - i,
    {
        assert(fv[i as int] == fields@[i as int]@);
        let f = trim_bytes(&fields[i]);
        match parse_usize(&f) {
            None => {
                return Err(ParseError::NumericConversion { line: lineno });
            },
            Some(v) => {
                ids.push(v);
            },
        }
        i = i + 1;
    }
    Ok(ids)
}

/// Parses a whole mesh description. The result is exactly what the
/// line-by-line model `parse_doc` assigns to the input: the document on
/// success, and the first failure — with its one-based line number —
/// otherwise.
pub fn parse_mesh(input: &Vec<u8>) -> (r: Result<MeshDocument, ParseError>)
    ensures
        match r {
            Ok(doc) => parse_doc(input@) == Ok::<_, ParseError>(doc@) && doc@.wf(),
            Err(e) => parse_doc(input@) == Err::<crate::model::DocModel, _>(e),
        },
{
    let lines = split_bytes(input, 10);
    let ghost lns = spec_lines(input@);
    let mut section = Section::Global;
    let mut global = initial_global();
    let mut nodes: Vec<Node> = Vec::new();
    let mut elements: Vec<Element> = Vec::new();
    let mut bcs: Vec<usize> = Vec::new();
    let h_node: [u8; 5] = [42, 78, 111, 100, 101];
    let h_element: [u8; 8] = [42, 69, 108, 101, 109, 101, 110, 116];
    let h_bc: [u8; 3] = [42, 66, 67];
    proof {
        assert(h_node@ =~= header_node());
        assert(h_element@ =~= header_element());
        assert(h_bc@ =~= header_bc());
        assert(nodes@.map_values(|n: Node| n@) =~= Seq::<crate::model::NodeModel>::empty());
        assert(elements@.map_values(|e: Element| e@) =~= Seq::<
            crate::model::ElementModel,
        >::empty());
        assert(state_of(
            section,
            global@,
            nodes@.map_values(|n: Node| n@),
            elements@.map_values(|e: Element| e@),
            bcs@,
        ) == init_state());
    }
    let mut i: usize = 0;
    while i < lines.len()
        invariant
            i <= lines@.len(),
            lns == lines@.map_values(|l: Vec<u8>| l@),
            run_from(lns, 0, init_state()) == run_from(
                lns,
                i as int,
                state_of(
                    section,
                    global@,
                    nodes@.map_values(|n: Node| n@),
                    elements@.map_values(|e: Element| e@),
                    bcs@,
                ),
            ),
        decreases lines@.len() - i,
    {
        let ghost st0 = state_of(
            section,
            global@,
            nodes@.map_values(|n: Node| n@),
            elements@.map_values(|e: Element| e@),
            bcs@,
        );
        assert(lns[i as int] == lines@[i as int]@);
        let line = &lines[i];
        let lineno = i + 1;
        let t = trim_bytes(line);
        if t.len() == 0 {
            assert(is_blank(line@));
            assert(step_line(st0, lns[i as int], lineno) == Ok::<_, ParseError>(st0));
        } else {
            assert(!is_blank(line@));
            if has_prefix(line, h_node.as_slice()) {
                section = Section::Nodes;
                assert(step_line(st0, lns[i as int], lineno) == Ok::<_, ParseError>(
                    (PState { section: Section::Nodes, doc: st0.doc }),
                ));
            } else if has_prefix(line, h_element.as_slice()) {
                section = Section::Elements;
                assert(step_line(st0, lns[i as int], lineno) == Ok::<_, ParseError>(
                    (PState { section: Section::Elements, doc: st0.doc }),
                ));
            } else if has_prefix(line, h_bc.as_slice()) {
                section = Section::Boundary;
                assert(step_line(st0, lns[i as int], lineno) == Ok::<_, ParseError>(
                    (PState { section: Section::Boundary, doc: st0.doc }),
                ));
            } else {
                match section {
                    Section::Global => {
                        match do_global(global, line, lineno) {
                            Ok(g2) => {
                                global = g2;
                            },
                            Err(e) => {
                                assert(step_line(st0, lns[i as int], lineno) == Err::<PState, _>(
                                    e,
                                ));
                                assert(run_from(lns, 0, init_state()) == Err::<PState, _>(e));
                                return Err(e);
                            },
                        }
                    },
                    Section::Nodes => {
                        match do_node(line, lineno) {
                            Ok(n) => {
                                let ghost old_nodes = nodes@;
                                nodes.push(n);
                                assert(nodes@.map_values(|x: Node| x@) =~= old_nodes.map_values(
                                    |x: Node| x@,
                                ).push(n@));
                            },
                            Err(e) => {
                                assert(step_line(st0, lns[i as int], lineno) == Err::<PState, _>(
                                    e,
                                ));
                                assert(run_from(lns, 0, init_state()) == Err::<PState, _>(e));
                                return Err(e);
                            },
                        }
                    },
                    Section::Elements => {
                        match do_element(line, lineno) {
                            Ok(el) => {
                                let ghost old_elems = elements@;
                                elements.push(el);
                                assert(elements@.map_values(|x: Element| x@)
                                    =~= old_elems.map_values(|x: Element| x@).push(el@));
                            },
                            Err(e) => {
                                assert(step_line(st0, lns[i as int], lineno) == Err::<PState, _>(
                                    e,
                                ));
                                assert(run_from(lns, 0, init_state()) == Err::<PState, _>(e));
                                return Err(e);
                            },
                        }
                    },
                    Section::Boundary => {
                        match do_bc(line, lineno) {
                            Ok(ids) => {
                                let ghost old_bcs = bcs@;
                                let mut j: usize = 0;
                                while j < ids.len()
                                    invariant
                                        j <= ids@.len(),
                                        bcs@ =~= old_bcs + ids@.take(j as int),
                                    decreases ids@.len() - j,
                                {
                                    bcs.push(ids[j]);
                                    j = j + 1;
                                }
                                assert(bcs@ =~= old_bcs + ids@);
                            },
                            Err(e) => {
                                assert(step_line(st0, lns[i as int], lineno) == Err::<PState, _>(
                                    e,
                                ));
                                assert(run_from(lns, 0, init_state()) == Err::<PState, _>(e));
                                return Err(e);
                            },
                        }
                    },
                }
            }
        }
        proof {
            let st1 = state_of(
                section,
                global@,
                nodes@.map_values(|n: Node| n@),
                elements@.map_values(|e: Element| e@),
                bcs@,
            );
            assert(step_line(st0, lns[i as int], lineno) == Ok::<_, ParseError>(st1));
            assert(run_from(lns, i as int, st0) == run_from(lns, i as int + 1, st1));
        }
        i = i + 1;
    }
    let doc = MeshDocument { global, nodes, elements, boundary_conditions: bcs };
    assert(parse_doc(input@) == Ok::<_, ParseError>(doc@));
    proof {
        crate::laws::lemma_parse_wf(input@, doc@);
    }
    Ok(doc)
}

} // verus!
