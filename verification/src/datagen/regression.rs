use vstd::prelude::*;

use crate::datagen::TestCase;

verus! {

/// Pins this group's cases: their count, names and annotated texts.
pub open spec fn spec_group_ok(g: Seq<TestCase>) -> bool {
    &&& g.len() == 2
    &&& g[0].name@ == "unterminated_param_list"@
    &&& g[0].source@ == "_|procedure F("@
    &&& g[1].name@ == "visibility_keywords_outside_type_decl"@
    &&& g[1].source@ == "_|const\n_|  Strict = 0;\n_|  Automated = 0;\n_|  Private = 0;\n_|  Protected = 0;\n_|  Public = 0;\n_|  Published = 0;"@
}


/// The corpus this group contributes to the parser data tests: each case's
/// text carries the source lines (after `|`) with their logical-line
/// assignments (before `|`, with `^` for parent links), and the expected
/// line kinds after the `---` rule.
pub fn generate() -> (r: Vec<TestCase>)
    ensures
        spec_group_ok(r@),
{
    let mut out: Vec<TestCase> = Vec::new();
    out.push(TestCase { name: "unterminated_param_list", source: "_|procedure F(" });
    out.push(TestCase { name: "visibility_keywords_outside_type_decl", source: "_|const\n_|  Strict = 0;\n_|  Automated = 0;\n_|  Private = 0;\n_|  Protected = 0;\n_|  Public = 0;\n_|  Published = 0;" });
    out
}

} // verus!
