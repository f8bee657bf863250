use vstd::prelude::*;

use crate::datagen::TestCase;

verus! {

/// Pins this group's cases: their count, names and annotated texts.
pub open spec fn spec_group_ok(g: Seq<TestCase>) -> bool {
    &&& g.len() == 3
    &&& g[0].name@ == "assignment"@
    &&& g[0].source@ == "_|Foo := Bar;"@
    &&& g[1].name@ == "call"@
    &&& g[1].source@ == "_|Foo(Bar, Baz);"@
    &&& g[2].name@ == "asm_block"@
    &&& g[2].source@ == "_|asm\n_|  XOR RBX, RBX\n_|end"@
}


/// The corpus this group contributes to the parser data tests: each case's
/// text carries the source lines (after `|`) with their logical-line
/// assignments (before `|`, with `^` for parent links), and the expected
/// line kinds after the `---` rule.
pub fn generate() -> (r: Vec<TestCase>)
    ensures
        spec_group_ok(r@),
{
    let mut out: Vec<TestCase> = Vec::new();
    out.push(TestCase { name: "assignment", source: "_|Foo := Bar;" });
    out.push(TestCase { name: "call", source: "_|Foo(Bar, Baz);" });
    out.push(TestCase { name: "asm_block", source: "_|asm\n_|  XOR RBX, RBX\n_|end" });
    out
}

} // verus!
