use vstd::prelude::*;

use crate::datagen::TestCase;

verus! {

/// Pins this group's cases: their count, names and annotated texts.
pub open spec fn spec_group_ok(g: Seq<TestCase>) -> bool {
    &&& g.len() == 3
    &&& g[0].name@ == "unit_int_impl"@
    &&& g[0].source@ == "_|unit Foo;\n_|interface\n_|implementation\n_|end."@
    &&& g[1].name@ == "unit_init"@
    &&& g[1].source@ == "_|unit Foo;\n_|interface\n_|implementation\n_|initialization\n_|end."@
    &&& g[2].name@ == "unit_init_fin"@
    &&& g[2].source@ == "_|unit Foo;\n_|interface\n_|implementation\n_|initialization\n_|finalization\n_|end."@
}


/// The corpus this group contributes to the parser data tests: each case's
/// text carries the source lines (after `|`) with their logical-line
/// assignments (before `|`, with `^` for parent links), and the expected
/// line kinds after the `---` rule.
pub fn generate() -> (r: Vec<TestCase>)
    ensures
        spec_group_ok(r@),
{
    let mut out: Vec<TestCase> = Vec::new();
    out.push(TestCase { name: "unit_int_impl", source: "_|unit Foo;\n_|interface\n_|implementation\n_|end." });
    out.push(TestCase { name: "unit_init", source: "_|unit Foo;\n_|interface\n_|implementation\n_|initialization\n_|end." });
    out.push(TestCase { name: "unit_init_fin", source: "_|unit Foo;\n_|interface\n_|implementation\n_|initialization\n_|finalization\n_|end." });
    out
}

} // verus!
