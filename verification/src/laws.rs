//! Properties of the parse, proved once and for all inputs: entry counts
//! match the data rows of the input, elements keep their shape and order,
//! global parameters are frozen at the first header, and parsing is
//! deterministic.

use vstd::prelude::*;
use crate::floatlit::is_float_lit;
use crate::model::{DocModel, ElementModel, ParseError, Section};
use crate::parse_spec::{
    conv_bc, conv_element, conv_ids, header_bc, header_element, header_node, init_state,
    is_blank, parse_doc, run_from, spec_lines, starts_with, step_line, zero_lit, PState,
};
use crate::text::{is_digit, spec_parse_usize, spec_split, spec_trim};

verus! {

/// The number of data rows of `lines[i..]` that the classifier dispatches to
/// section `target`, starting from current section `sec`.
pub open spec fn row_count(lines: Seq<Seq<u8>>, i: int, sec: Section, target: Section) -> nat
    decreases lines.len() - i,
{
    if i < 0 || i >= lines.len() {
        0
    } else {
        let line = lines[i];
        if is_blank(line) {
            row_count(lines, i + 1, sec, target)
        } else if starts_with(line, header_node()) {
            row_count(lines, i + 1, Section::Nodes, target)
        } else if starts_with(line, header_element()) {
            row_count(lines, i + 1, Section::Elements, target)
        } else if starts_with(line, header_bc()) {
            row_count(lines, i + 1, Section::Boundary, target)
        } else if sec == target {
            1 + row_count(lines, i + 1, sec, target)
        } else {
            row_count(lines, i + 1, sec, target)
        }
    }
}

/// The total number of comma-separated fields over the data rows of
/// `lines[i..]` that the classifier dispatches to the boundary-condition
/// section, starting from current section `sec`.
pub open spec fn bc_field_count(lines: Seq<Seq<u8>>, i: int, sec: Section) -> nat
    decreases lines.len() - i,
{
    if i < 0 || i >= lines.len() {
        0
    } else {
        let line = lines[i];
        if is_blank(line) {
            bc_field_count(lines, i + 1, sec)
        } else if starts_with(line, header_node()) {
            bc_field_count(lines, i + 1, Section::Nodes)
        } else if starts_with(line, header_element()) {
            bc_field_count(lines, i + 1, Section::Elements)
        } else if starts_with(line, header_bc()) {
            bc_field_count(lines, i + 1, Section::Boundary)
        } else if sec == Section::Boundary {
            spec_split(line, 44).len() + bc_field_count(lines, i + 1, sec)
        } else {
            bc_field_count(lines, i + 1, sec)
        }
    }
}

/// A successful identifier-row conversion yields one identifier per field.
proof fn lemma_conv_ids_len(fs: Seq<Seq<u8>>, i: int, acc: Seq<usize>, lineno: usize, res: Seq<
    usize,
>)
    requires
        0 <= i <= fs.len(),
        conv_ids(fs, i, acc, lineno) == Ok::<_, ParseError>(res),
    ensures
        res.len() == acc.len() + fs.len() - i,
    decreases fs.len() - i,
{
    if i < fs.len() {
        match spec_parse_usize(spec_trim(fs[i])) {
            None => {
                assert(false);
            },
            Some(v) => {
                lemma_conv_ids_len(fs, i + 1, acc.push(v), lineno, res);
            },
        }
    }
}

/// A successful run adds to the document exactly one node per node row, one
/// element per element row, and one boundary identifier per field of a
/// boundary row.
proof fn lemma_run_counts(lines: Seq<Seq<u8>>, i: int, st: PState, st2: PState)
    requires
        0 <= i,
        run_from(lines, i, st) == Ok::<_, ParseError>(st2),
    ensures
        st2.doc.nodes.len() == st.doc.nodes.len() + row_count(
            lines,
            i,
            st.section,
            Section::Nodes,
        ),
        st2.doc.elements.len() == st.doc.elements.len() + row_count(
            lines,
            i,
            st.section,
            Section::Elements,
        ),
        st2.doc.boundary_conditions.len() == st.doc.boundary_conditions.len() + bc_field_count(
            lines,
            i,
            st.section,
        ),
    decreases lines.len() - i,
{
    if i >= lines.len() {
    } else {
        match step_line(st, lines[i], (i + 1) as usize) {
            Ok(stm) => {
                lemma_run_counts(lines, i + 1, stm, st2);
                if !is_blank(lines[i]) && !starts_with(lines[i], header_node()) && !starts_with(
                    lines[i],
                    header_element(),
                ) && !starts_with(lines[i], header_bc()) && st.section == Section::Boundary {
                    match conv_bc(lines[i], (i + 1) as usize) {
                        Ok(ids) => {
                            lemma_conv_ids_len(
                                spec_split(lines[i], 44),
                                0,
                                seq![],
                                (i + 1) as usize,
                                ids,
                            );
                        },
                        Err(_) => {
                            assert(false);
                        },
                    }
                }
            },
            Err(_) => {
                assert(false);
            },
        }
    }
}

/// The number of node entries in a parsed document equals the number of data
/// rows dispatched to the node section — the declared count plays no part.
pub proof fn lemma_node_count(input: Seq<u8>, doc: DocModel)
    requires
        parse_doc(input) == Ok::<_, ParseError>(doc),
    ensures
        doc.nodes.len() == row_count(spec_lines(input), 0, Section::Global, Section::Nodes),
{
    match run_from(spec_lines(input), 0, init_state()) {
        Ok(st) => {
            lemma_run_counts(spec_lines(input), 0, init_state(), st);
        },
        Err(_) => {
            assert(false);
        },
    }
}

/// The number of element entries equals the number of data rows dispatched to
/// the element section.
pub proof fn lemma_element_count(input: Seq<u8>, doc: DocModel)
    requires
        parse_doc(input) == Ok::<_, ParseError>(doc),
    ensures
        doc.elements.len() == row_count(spec_lines(input), 0, Section::Global, Section::Elements),
{
    match run_from(spec_lines(input), 0, init_state()) {
        Ok(st) => {
            lemma_run_counts(spec_lines(input), 0, init_state(), st);
        },
        Err(_) => {
            assert(false);
        },
    }
}

/// The boundary-condition list is as long as the total number of
/// comma-separated fields over all boundary rows — not the row count.
pub proof fn lemma_bc_count(input: Seq<u8>, doc: DocModel)
    requires
        parse_doc(input) == Ok::<_, ParseError>(doc),
    ensures
        doc.boundary_conditions.len() == bc_field_count(spec_lines(input), 0, Section::Global),
{
    match run_from(spec_lines(input), 0, init_state()) {
        Ok(st) => {
            lemma_run_counts(spec_lines(input), 0, init_state(), st);
        },
        Err(_) => {
            assert(false);
        },
    }
}

/// One step keeps the document well formed.
proof fn lemma_step_wf(st: PState, line: Seq<u8>, lineno: usize, st2: PState)
    requires
        step_line(st, line, lineno) == Ok::<_, ParseError>(st2),
        st.doc.wf(),
    ensures
        st2.doc.wf(),
{
    if !is_blank(line) && !starts_with(line, header_node()) && !starts_with(
        line,
        header_element(),
    ) && !starts_with(line, header_bc()) {
        match st.section {
            Section::Global => {},
            Section::Nodes => {
                assert(st2.doc.nodes.last().wf());
            },
            Section::Elements => {
                assert(st2.doc.elements.last().wf());
            },
            Section::Boundary => {},
        }
    }
}

/// A run from a well-formed state ends in a well-formed state.
proof fn lemma_run_wf(lines: Seq<Seq<u8>>, i: int, st: PState, st2: PState)
    requires
        0 <= i,
        run_from(lines, i, st) == Ok::<_, ParseError>(st2),
        st.doc.wf(),
    ensures
        st2.doc.wf(),
    decreases lines.len() - i,
{
    if i < lines.len() {
        match step_line(st, lines[i], (i + 1) as usize) {
            Ok(stm) => {
                lemma_step_wf(st, lines[i], (i + 1) as usize, stm);
                lemma_run_wf(lines, i + 1, stm, st2);
            },
            Err(_) => {
                assert(false);
            },
        }
    }
}

/// The literal `0` is a valid floating-point literal.
proof fn lemma_zero_lit_valid()
    ensures
        is_float_lit(zero_lit()),
{
    let t = zero_lit();
    assert(is_digit(t[0]));
    assert(forall|k: int| 0 <= k < t.len() ==> !crate::floatlit::is_exp_char(t[k]));
    assert(crate::floatlit::is_mantissa(t));
}

/// Every parsed document is well formed: each element carries exactly four
/// node references, and every stored real-valued field is a valid
/// floating-point literal.
pub proof fn lemma_parse_wf(input: Seq<u8>, doc: DocModel)
    requires
        parse_doc(input) == Ok::<_, ParseError>(doc),
    ensures
        doc.wf(),
{
    lemma_zero_lit_valid();
    assert(init_state().doc.wf());
    match run_from(spec_lines(input), 0, init_state()) {
        Ok(st) => {
            lemma_run_wf(spec_lines(input), 0, init_state(), st);
        },
        Err(_) => {
            assert(false);
        },
    }
}

/// A successfully converted element row keeps its field order: the first
/// field is the identifier and the four node references follow in input
/// order.
pub proof fn lemma_element_row_order(line: Seq<u8>, lineno: usize, el: ElementModel)
    requires
        conv_element(line, lineno) == Ok::<_, ParseError>(el),
    ensures
        spec_split(line, 44).len() == 5,
        el.id == spec_parse_usize(spec_trim(spec_split(line, 44)[0]))->Some_0,
        el.nodes.len() == 4,
        forall|j: int|
            0 <= j < 4 ==> el.nodes[j] == spec_parse_usize(
                spec_trim(spec_split(line, 44)[j + 1]),
            )->Some_0,
{
    let fs = spec_split(line, 44);
    assert(el.nodes[0] == spec_parse_usize(spec_trim(fs[1]))->Some_0);
    assert(el.nodes[1] == spec_parse_usize(spec_trim(fs[2]))->Some_0);
    assert(el.nodes[2] == spec_parse_usize(spec_trim(fs[3]))->Some_0);
    assert(el.nodes[3] == spec_parse_usize(spec_trim(fs[4]))->Some_0);
}

/// One step taken outside the global section never touches the global
/// parameters and never returns to the global section.
pub proof fn lemma_sections_one_way(st: PState, line: Seq<u8>, lineno: usize, st2: PState)
    requires
        step_line(st, line, lineno) == Ok::<_, ParseError>(st2),
        st.section != Section::Global,
    ensures
        st2.section != Section::Global,
        st2.doc.global == st.doc.global,
{
}

/// Once any header has been seen, the global parameters are frozen: whatever
/// the remaining input holds — a repeated key included — a successful run
/// leaves them exactly as they were.
pub proof fn lemma_global_frozen_after_header(lines: Seq<Seq<u8>>, i: int, st: PState, st2: PState)
    requires
        0 <= i,
        st.section != Section::Global,
        run_from(lines, i, st) == Ok::<_, ParseError>(st2),
    ensures
        st2.doc.global == st.doc.global,
    decreases lines.len() - i,
{
    if i < lines.len() {
        match step_line(st, lines[i], (i + 1) as usize) {
            Ok(stm) => {
                lemma_sections_one_way(st, lines[i], (i + 1) as usize, stm);
                lemma_global_frozen_after_header(lines, i + 1, stm, st2);
            },
            Err(_) => {
                assert(false);
            },
        }
    }
}

/// The state machine run over `lines[i..j]` only, from state `st`.
pub open spec fn run_prefix(lines: Seq<Seq<u8>>, i: int, j: int, st: PState) -> Result<
    PState,
    ParseError,
>
    decreases j - i,
{
    if i < 0 || i >= j || i >= lines.len() {
        Ok(st)
    } else {
        match step_line(st, lines[i], (i + 1) as usize) {
            Ok(st2) => run_prefix(lines, i + 1, j, st2),
            Err(e) => Err(e),
        }
    }
}

/// A run decomposes at any midpoint: running to the end equals running to `j`
/// and continuing from there.
proof fn lemma_run_split(lines: Seq<Seq<u8>>, i: int, j: int, st: PState)
    requires
        0 <= i <= j <= lines.len(),
    ensures
        run_from(lines, i, st) == (match run_prefix(lines, i, j, st) {
            Ok(stm) => run_from(lines, j, stm),
            Err(e) => Err(e),
        }),
    decreases j - i,
{
    if i < j {
        match step_line(st, lines[i], (i + 1) as usize) {
            Ok(st2) => {
                lemma_run_split(lines, i + 1, j, st2);
            },
            Err(_) => {},
        }
    }
}

/// Global parameters set before the first header are available after parsing:
/// if at some point the parser has left the global section — which happens at
/// the first header and is never undone — the parameters it holds there are
/// exactly the parameters of the final document.
pub proof fn lemma_global_set_before_header_persists(
    lines: Seq<Seq<u8>>,
    j: int,
    st_j: PState,
    st_end: PState,
)
    requires
        0 <= j <= lines.len(),
        run_prefix(lines, 0, j, init_state()) == Ok::<_, ParseError>(st_j),
        st_j.section != Section::Global,
        run_from(lines, 0, init_state()) == Ok::<_, ParseError>(st_end),
    ensures
        st_end.doc.global == st_j.doc.global,
{
    lemma_run_split(lines, 0, j, init_state());
    lemma_global_frozen_after_header(lines, j, st_j, st_end);
}

/// Parsing is deterministic: the result is a function of the input bytes
/// alone. Together with the contract of `parse_mesh`, which pins its result
/// to `parse_doc`, two parses of the same input yield identical documents.
pub proof fn lemma_parse_deterministic(
    input: Seq<u8>,
    r1: Result<DocModel, ParseError>,
    r2: Result<DocModel, ParseError>,
)
    requires
        r1 == parse_doc(input),
        r2 == parse_doc(input),
    ensures
        r1 == r2,
{
}

} // verus!
