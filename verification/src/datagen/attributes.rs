use vstd::prelude::*;

use crate::datagen::TestCase;

verus! {

/// Pins this group's cases: their count, names and annotated texts.
pub open spec fn spec_group_ok(g: Seq<TestCase>) -> bool {
    &&& g.len() == 2
    &&& g[0].name@ == "top_level"@
    &&& g[0].source@ == "1|[Attribute]\n_|type\n2|  [Attribute]\n_|  TFoo = class;\n3|[Attribute]\n_|procedure Foo;\n---\n1:Attribute\n2:Attribute\n3:Attribute"@
    &&& g[1].name@ == "multiple_comma"@
    &&& g[1].source@ == "1|[Attribute(ABC, DEF), Attribute([1, 2, 3])]\n_|procedure Foo;\n---\n1:Attribute"@
}


/// The corpus this group contributes to the parser data tests: each case's
/// text carries the source lines (after `|`) with their logical-line
/// assignments (before `|`, with `^` for parent links), and the expected
/// line kinds after the `---` rule.
pub fn generate() -> (r: Vec<TestCase>)
    ensures
        spec_group_ok(r@),
{
    let mut out: Vec<TestCase> = Vec::new();
    out.push(TestCase { name: "top_level", source: "1|[Attribute]\n_|type\n2|  [Attribute]\n_|  TFoo = class;\n3|[Attribute]\n_|procedure Foo;\n---\n1:Attribute\n2:Attribute\n3:Attribute" });
    out.push(TestCase { name: "multiple_comma", source: "1|[Attribute(ABC, DEF), Attribute([1, 2, 3])]\n_|procedure Foo;\n---\n1:Attribute" });
    out
}

} // verus!
