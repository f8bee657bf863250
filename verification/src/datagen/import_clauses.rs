use vstd::prelude::*;

use crate::datagen::TestCase;

verus! {

/// Pins this group's cases: their count, names and annotated texts.
pub open spec fn spec_group_ok(g: Seq<TestCase>) -> bool {
    &&& g.len() == 2
    &&& g[0].name@ == "uses_one_file"@
    &&& g[0].source@ == "_|package Foo;\n_|uses\n1|  unit1;\n---\n1:ImportClause"@
    &&& g[1].name@ == "uses_in_path"@
    &&& g[1].source@ == "_|program Foo;\n_|uses\n1|  unit1 in 'unit1.pas';\n---\n1:ImportClause"@
}


/// The corpus this group contributes to the parser data tests: each case's
/// text carries the source lines (after `|`) with their logical-line
/// assignments (before `|`, with `^` for parent links), and the expected
/// line kinds after the `---` rule.
pub fn generate() -> (r: Vec<TestCase>)
    ensures
        spec_group_ok(r@),
{
    let mut out: Vec<TestCase> = Vec::new();
    out.push(TestCase { name: "uses_one_file", source: "_|package Foo;\n_|uses\n1|  unit1;\n---\n1:ImportClause" });
    out.push(TestCase { name: "uses_in_path", source: "_|program Foo;\n_|uses\n1|  unit1 in 'unit1.pas';\n---\n1:ImportClause" });
    out
}

} // verus!
