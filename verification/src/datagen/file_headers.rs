use vstd::prelude::*;

use crate::datagen::TestCase;

verus! {

/// Pins this group's cases: their count, names and annotated texts.
pub open spec fn spec_group_ok(g: Seq<TestCase>) -> bool {
    &&& g.len() == 5
    &&& g[0].name@ == "unit_individual"@
    &&& g[0].source@ == "_|unit Foo;"@
    &&& g[1].name@ == "program_individual"@
    &&& g[1].source@ == "_|program Foo;"@
    &&& g[2].name@ == "library_individual"@
    &&& g[2].source@ == "_|library Foo;"@
    &&& g[3].name@ == "package_individual"@
    &&& g[3].source@ == "_|package Foo;"@
    &&& g[4].name@ == "unit_inline_comment_after"@
    &&& g[4].source@ == "_|unit Foo; // comment"@
}


/// The corpus this group contributes to the parser data tests: each case's
/// text carries the source lines (after `|`) with their logical-line
/// assignments (before `|`, with `^` for parent links), and the expected
/// line kinds after the `---` rule.
pub fn generate() -> (r: Vec<TestCase>)
    ensures
        spec_group_ok(r@),
{
    let mut out: Vec<TestCase> = Vec::new();
    out.push(TestCase { name: "unit_individual", source: "_|unit Foo;" });
    out.push(TestCase { name: "program_individual", source: "_|program Foo;" });
    out.push(TestCase { name: "library_individual", source: "_|library Foo;" });
    out.push(TestCase { name: "package_individual", source: "_|package Foo;" });
    out.push(TestCase { name: "unit_inline_comment_after", source: "_|unit Foo; // comment" });
    out
}

} // verus!
