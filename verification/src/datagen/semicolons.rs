use vstd::prelude::*;

use crate::datagen::TestCase;

verus! {

/// Pins this group's cases: their count, names and annotated texts.
pub open spec fn spec_group_ok(g: Seq<TestCase>) -> bool {
    &&& g.len() == 3
    &&& g[0].name@ == "compound_statement_with_semicolon"@
    &&& g[0].source@ == "_|begin\n_|  Foo();\n_|end;"@
    &&& g[1].name@ == "compound_statement_without_semicolon"@
    &&& g[1].source@ == "_|begin\n_|  Foo()\n_|end;"@
    &&& g[2].name@ == "anonymous_impl"@
    &&& g[2].source@ == "_1 |A := procedure\n1  |begin{1}\n_^1|  Foo;\n1  |end;"@
}


/// The corpus this group contributes to the parser data tests: each case's
/// text carries the source lines (after `|`) with their logical-line
/// assignments (before `|`, with `^` for parent links), and the expected
/// line kinds after the `---` rule.
pub fn generate() -> (r: Vec<TestCase>)
    ensures
        spec_group_ok(r@),
{
    let mut out: Vec<TestCase> = Vec::new();
    out.push(TestCase { name: "compound_statement_with_semicolon", source: "_|begin\n_|  Foo();\n_|end;" });
    out.push(TestCase { name: "compound_statement_without_semicolon", source: "_|begin\n_|  Foo()\n_|end;" });
    out.push(TestCase { name: "anonymous_impl", source: "_1 |A := procedure\n1  |begin{1}\n_^1|  Foo;\n1  |end;" });
    out
}

} // verus!
