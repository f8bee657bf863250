use vstd::prelude::*;

use crate::datagen::TestCase;

verus! {

/// Pins this group's cases: their count, names and annotated texts.
pub open spec fn spec_group_ok(g: Seq<TestCase>) -> bool {
    &&& g.len() == 4
    &&& g[0].name@ == "if_then"@
    &&& g[0].source@ == "_|begin\n_|  if Foo then\n_|    Bar;\n_|end;"@
    &&& g[1].name@ == "while_do"@
    &&& g[1].source@ == "_|begin\n_|  while Foo do\n_|    Bar;\n_|end;"@
    &&& g[2].name@ == "for_to"@
    &&& g[2].source@ == "_|begin\n_|  for I := 0 to 10 do\n_|    Bar;\n_|end;"@
    &&& g[3].name@ == "repeat_until"@
    &&& g[3].source@ == "_|repeat\n_|  Bar;\n_|until Foo;"@
}


/// The corpus this group contributes to the parser data tests: each case's
/// text carries the source lines (after `|`) with their logical-line
/// assignments (before `|`, with `^` for parent links), and the expected
/// line kinds after the `---` rule.
pub fn generate() -> (r: Vec<TestCase>)
    ensures
        spec_group_ok(r@),
{
    let mut out: Vec<TestCase> = Vec::new();
    out.push(TestCase { name: "if_then", source: "_|begin\n_|  if Foo then\n_|    Bar;\n_|end;" });
    out.push(TestCase { name: "while_do", source: "_|begin\n_|  while Foo do\n_|    Bar;\n_|end;" });
    out.push(TestCase { name: "for_to", source: "_|begin\n_|  for I := 0 to 10 do\n_|    Bar;\n_|end;" });
    out.push(TestCase { name: "repeat_until", source: "_|repeat\n_|  Bar;\n_|until Foo;" });
    out
}

} // verus!
