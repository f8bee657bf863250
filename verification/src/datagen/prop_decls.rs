use vstd::prelude::*;

use crate::datagen::TestCase;

verus! {

/// Pins this group's cases: their count, names and annotated texts.
pub open spec fn spec_group_ok(g: Seq<TestCase>) -> bool {
    &&& g.len() == 2
    &&& g[0].name@ == "naked"@
    &&& g[0].source@ == "_|type\n_|  TFoo = class\n1|    property Foo;\n2|    property Foo\n_|  end;\n---\n1:PropertyDeclaration\n2:PropertyDeclaration"@
    &&& g[1].name@ == "read_write"@
    &&& g[1].source@ == "_|type\n_|  TFoo = class\n1|    property Foo read FFoo write FFoo;\n_|  end;\n---\n1:PropertyDeclaration"@
}


/// The corpus this group contributes to the parser data tests: each case's
/// text carries the source lines (after `|`) with their logical-line
/// assignments (before `|`, with `^` for parent links), and the expected
/// line kinds after the `---` rule.
pub fn generate() -> (r: Vec<TestCase>)
    ensures
        spec_group_ok(r@),
{
    let mut out: Vec<TestCase> = Vec::new();
    out.push(TestCase { name: "naked", source: "_|type\n_|  TFoo = class\n1|    property Foo;\n2|    property Foo\n_|  end;\n---\n1:PropertyDeclaration\n2:PropertyDeclaration" });
    out.push(TestCase { name: "read_write", source: "_|type\n_|  TFoo = class\n1|    property Foo read FFoo write FFoo;\n_|  end;\n---\n1:PropertyDeclaration" });
    out
}

} // verus!
