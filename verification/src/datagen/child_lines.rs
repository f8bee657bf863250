use vstd::prelude::*;

use crate::datagen::TestCase;

verus! {

/// Pins this group's cases: their count, names and annotated texts.
pub open spec fn spec_group_ok(g: Seq<TestCase>) -> bool {
    &&& g.len() == 2
    &&& g[0].name@ == "conditional_child_lines"@
    &&& g[0].source@ == "1   |Foo(\n1   |procedure\n1   |begin{1}\n2   |{$ifdef}\n3^1 |  A;\n5   |{$else}\n6^1 |  B;\n7   |{$endif}\n1   |end\n1   |)\n---\n2:ConditionalDirective\n5:ConditionalDirective\n7:ConditionalDirective"@
    &&& g[1].name@ == "conditional_begin"@
    &&& g[1].source@ == "1,2     |Foo(\n1,2     |procedure\n5       |{$ifdef}\n1       |begin{1}\n6       |{$else}\n2       |begin{2}\n7       |{$endif}\n3^1,4^2 |  A;\n1,2     |end\n1,2     |)\n---\n5:ConditionalDirective\n6:ConditionalDirective\n7:ConditionalDirective"@
}


/// The corpus this group contributes to the parser data tests: each case's
/// text carries the source lines (after `|`) with their logical-line
/// assignments (before `|`, with `^` for parent links), and the expected
/// line kinds after the `---` rule.
pub fn generate() -> (r: Vec<TestCase>)
    ensures
        spec_group_ok(r@),
{
    let mut out: Vec<TestCase> = Vec::new();
    out.push(TestCase { name: "conditional_child_lines", source: "1   |Foo(\n1   |procedure\n1   |begin{1}\n2   |{$ifdef}\n3^1 |  A;\n5   |{$else}\n6^1 |  B;\n7   |{$endif}\n1   |end\n1   |)\n---\n2:ConditionalDirective\n5:ConditionalDirective\n7:ConditionalDirective" });
    out.push(TestCase { name: "conditional_begin", source: "1,2     |Foo(\n1,2     |procedure\n5       |{$ifdef}\n1       |begin{1}\n6       |{$else}\n2       |begin{2}\n7       |{$endif}\n3^1,4^2 |  A;\n1,2     |end\n1,2     |)\n---\n5:ConditionalDirective\n6:ConditionalDirective\n7:ConditionalDirective" });
    out
}

} // verus!
