use vstd::prelude::*;

use crate::datagen::TestCase;

verus! {

/// Pins this group's cases: their count, names and annotated texts.
pub open spec fn spec_group_ok(g: Seq<TestCase>) -> bool {
    &&& g.len() == 3
    &&& g[0].name@ == "begin"@
    &&& g[0].source@ == "_|procedure Foo;\n_|begin\n_|  Foo;\n_|end;"@
    &&& g[1].name@ == "asm"@
    &&& g[1].source@ == "_|procedure Foo;\n_|asm\n_|  XOR EAX, EAX\n_|end;"@
    &&& g[2].name@ == "sub_begin"@
    &&& g[2].source@ == "_|procedure Foo;\n_|  procedure SubRoutine;\n_|  begin\n_|    Bar;\n_|  end;\n_|begin\n_|  Foo;\n_|end;"@
}


/// The corpus this group contributes to the parser data tests: each case's
/// text carries the source lines (after `|`) with their logical-line
/// assignments (before `|`, with `^` for parent links), and the expected
/// line kinds after the `---` rule.
pub fn generate() -> (r: Vec<TestCase>)
    ensures
        spec_group_ok(r@),
{
    let mut out: Vec<TestCase> = Vec::new();
    out.push(TestCase { name: "begin", source: "_|procedure Foo;\n_|begin\n_|  Foo;\n_|end;" });
    out.push(TestCase { name: "asm", source: "_|procedure Foo;\n_|asm\n_|  XOR EAX, EAX\n_|end;" });
    out.push(TestCase { name: "sub_begin", source: "_|procedure Foo;\n_|  procedure SubRoutine;\n_|  begin\n_|    Bar;\n_|  end;\n_|begin\n_|  Foo;\n_|end;" });
    out
}

} // verus!
