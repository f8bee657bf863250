use vstd::prelude::*;

pub mod directives_conditional;
pub mod directives_compiler;
pub mod comments_inline;
pub mod comments_individual;
pub mod child_lines;
pub mod file_headers;
pub mod file_sections;
pub mod import_clauses;
pub mod exports;
pub mod decl_sections;
pub mod type_decls;
pub mod visibility_sections;
pub mod prop_decls;
pub mod routine_headers;
pub mod routine_implementations;
pub mod control_flows;
pub mod statements;
pub mod attributes;
pub mod semicolons;
pub mod regression;

verus! {

/// One entry of the parser data-test corpus: a case name and the annotated
/// case text (source lines with their expected logical-line assignments).
/// Writing the corpus out is the caller's affair.
pub struct TestCase {
    pub name: &'static str,
    pub source: &'static str,
}

/// Collects every group's corpus, one entry per group, in a fixed order.
pub fn generate_test_files() -> (r: Vec<Vec<TestCase>>)
    ensures
        r@.len() == 20,
        directives_conditional::spec_group_ok(r@[0]@),
        directives_compiler::spec_group_ok(r@[1]@),
        comments_inline::spec_group_ok(r@[2]@),
        comments_individual::spec_group_ok(r@[3]@),
        child_lines::spec_group_ok(r@[4]@),
        file_headers::spec_group_ok(r@[5]@),
        file_sections::spec_group_ok(r@[6]@),
        import_clauses::spec_group_ok(r@[7]@),
        exports::spec_group_ok(r@[8]@),
        decl_sections::spec_group_ok(r@[9]@),
        type_decls::spec_group_ok(r@[10]@),
        visibility_sections::spec_group_ok(r@[11]@),
        prop_decls::spec_group_ok(r@[12]@),
        routine_headers::spec_group_ok(r@[13]@),
        routine_implementations::spec_group_ok(r@[14]@),
        control_flows::spec_group_ok(r@[15]@),
        statements::spec_group_ok(r@[16]@),
        attributes::spec_group_ok(r@[17]@),
        semicolons::spec_group_ok(r@[18]@),
        regression::spec_group_ok(r@[19]@),
{
    let mut out: Vec<Vec<TestCase>> = Vec::new();
    out.push(directives_conditional::generate());
    out.push(directives_compiler::generate());
    out.push(comments_inline::generate());
    out.push(comments_individual::generate());
    out.push(child_lines::generate());
    out.push(file_headers::generate());
    out.push(file_sections::generate());
    out.push(import_clauses::generate());
    out.push(exports::generate());
    out.push(decl_sections::generate());
    out.push(type_decls::generate());
    out.push(visibility_sections::generate());
    out.push(prop_decls::generate());
    out.push(routine_headers::generate());
    out.push(routine_implementations::generate());
    out.push(control_flows::generate());
    out.push(statements::generate());
    out.push(attributes::generate());
    out.push(semicolons::generate());
    out.push(regression::generate());
    out
}

} // verus!
