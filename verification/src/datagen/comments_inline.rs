use vstd::prelude::*;

use crate::datagen::TestCase;

verus! {

/// Pins this group's cases: their count, names and annotated texts.
pub open spec fn spec_group_ok(g: Seq<TestCase>) -> bool {
    &&& g.len() == 3
    &&& g[0].name@ == "end_of_line"@
    &&& g[0].source@ == "_|begin {inline block}\n_|  Foo;\n_|end {inline block}"@
    &&& g[1].name@ == "mid_line"@
    &&& g[1].source@ == "_|Foo {inline block}\n | ();"@
    &&& g[2].name@ == "line_end_of_line"@
    &&& g[2].source@ == "_|begin // inline line\n_|  Foo;\n_|end // inline line"@
}


/// The corpus this group contributes to the parser data tests: each case's
/// text carries the source lines (after `|`) with their logical-line
/// assignments (before `|`, with `^` for parent links), and the expected
/// line kinds after the `---` rule.
pub fn generate() -> (r: Vec<TestCase>)
    ensures
        spec_group_ok(r@),
{
    let mut out: Vec<TestCase> = Vec::new();
    out.push(TestCase { name: "end_of_line", source: "_|begin {inline block}\n_|  Foo;\n_|end {inline block}" });
    out.push(TestCase { name: "mid_line", source: "_|Foo {inline block}\n | ();" });
    out.push(TestCase { name: "line_end_of_line", source: "_|begin // inline line\n_|  Foo;\n_|end // inline line" });
    out
}

} // verus!
