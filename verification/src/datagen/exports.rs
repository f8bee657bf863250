use vstd::prelude::*;

use crate::datagen::TestCase;

verus! {

/// Pins this group's cases: their count, names and annotated texts.
pub open spec fn spec_group_ok(g: Seq<TestCase>) -> bool {
    &&& g.len() == 3
    &&& g[0].name@ == "one_export"@
    &&& g[0].source@ == "_|exports\n1|  Foo;\n---\n1:ExportClause"@
    &&& g[1].name@ == "one_export_with_index_name"@
    &&& g[1].source@ == "_|exports\n1|  Foo index 1 name foo;\n---\n1:ExportClause"@
    &&& g[2].name@ == "many_exports"@
    &&& g[2].source@ == "_|exports\n1|  Foo, Bar;\n---\n1:ExportClause"@
}


/// The corpus this group contributes to the parser data tests: each case's
/// text carries the source lines (after `|`) with their logical-line
/// assignments (before `|`, with `^` for parent links), and the expected
/// line kinds after the `---` rule.
pub fn generate() -> (r: Vec<TestCase>)
    ensures
        spec_group_ok(r@),
{
    let mut out: Vec<TestCase> = Vec::new();
    out.push(TestCase { name: "one_export", source: "_|exports\n1|  Foo;\n---\n1:ExportClause" });
    out.push(TestCase { name: "one_export_with_index_name", source: "_|exports\n1|  Foo index 1 name foo;\n---\n1:ExportClause" });
    out.push(TestCase { name: "many_exports", source: "_|exports\n1|  Foo, Bar;\n---\n1:ExportClause" });
    out
}

} // verus!
