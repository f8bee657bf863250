use vstd::prelude::*;

use crate::datagen::TestCase;

verus! {

/// Pins this group's cases: their count, names and annotated texts.
pub open spec fn spec_group_ok(g: Seq<TestCase>) -> bool {
    &&& g.len() == 3
    &&& g[0].name@ == "const_section"@
    &&& g[0].source@ == "_|unit Foo;\n_|interface\n_|const\n1|  Foo = 1;\n---\n1:Declaration"@
    &&& g[1].name@ == "var_section"@
    &&& g[1].source@ == "_|unit Foo;\n_|interface\n_|var\n1|  Foo: Integer;\n---\n1:Declaration"@
    &&& g[2].name@ == "local_decl"@
    &&& g[2].source@ == "_|procedure Foo;\n_|const\n1|  Foo = 1;\n_|begin\n_|end;\n---\n1:Declaration"@
}


/// The corpus this group contributes to the parser data tests: each case's
/// text carries the source lines (after `|`) with their logical-line
/// assignments (before `|`, with `^` for parent links), and the expected
/// line kinds after the `---` rule.
pub fn generate() -> (r: Vec<TestCase>)
    ensures
        spec_group_ok(r@),
{
    let mut out: Vec<TestCase> = Vec::new();
    out.push(TestCase { name: "const_section", source: "_|unit Foo;\n_|interface\n_|const\n1|  Foo = 1;\n---\n1:Declaration" });
    out.push(TestCase { name: "var_section", source: "_|unit Foo;\n_|interface\n_|var\n1|  Foo: Integer;\n---\n1:Declaration" });
    out.push(TestCase { name: "local_decl", source: "_|procedure Foo;\n_|const\n1|  Foo = 1;\n_|begin\n_|end;\n---\n1:Declaration" });
    out
}

} // verus!
