use vstd::prelude::*;

use crate::datagen::TestCase;

verus! {

/// Pins this group's cases: their count, names and annotated texts.
pub open spec fn spec_group_ok(g: Seq<TestCase>) -> bool {
    &&& g.len() == 3
    &&& g[0].name@ == "ifdef"@
    &&& g[0].source@ == "1 |Foo\n3 |{$ifdef}\n1 |Baz\n4 |{$endif}\n---\n3:ConditionalDirective\n4:ConditionalDirective"@
    &&& g[1].name@ == "if_else"@
    &&& g[1].source@ == "1,2 |Foo\n3   |{$ifdef}\n1   |Bar\n4   |{$else}\n2   |Baz\n5   |{$endif}\n---\n3:ConditionalDirective\n4:ConditionalDirective\n5:ConditionalDirective"@
    &&& g[2].name@ == "nested"@
    &&& g[2].source@ == "1,2,3 |Foo\n4     |{$ifdef}\n5     |  {$ifdef}\n1     |Bar\n6     |  {$else}\n2     |Baz\n7     |  {$endif}\n8     |{$else}\n3     |Flarp\n9     |{$endif}\n---\n4:ConditionalDirective\n5:ConditionalDirective\n6:ConditionalDirective\n7:ConditionalDirective\n8:ConditionalDirective\n9:ConditionalDirective"@
}


/// The corpus this group contributes to the parser data tests: each case's
/// text carries the source lines (after `|`) with their logical-line
/// assignments (before `|`, with `^` for parent links), and the expected
/// line kinds after the `---` rule.
pub fn generate() -> (r: Vec<TestCase>)
    ensures
        spec_group_ok(r@),
{
    let mut out: Vec<TestCase> = Vec::new();
    out.push(TestCase { name: "ifdef", source: "1 |Foo\n3 |{$ifdef}\n1 |Baz\n4 |{$endif}\n---\n3:ConditionalDirective\n4:ConditionalDirective" });
    out.push(TestCase { name: "if_else", source: "1,2 |Foo\n3   |{$ifdef}\n1   |Bar\n4   |{$else}\n2   |Baz\n5   |{$endif}\n---\n3:ConditionalDirective\n4:ConditionalDirective\n5:ConditionalDirective" });
    out.push(TestCase { name: "nested", source: "1,2,3 |Foo\n4     |{$ifdef}\n5     |  {$ifdef}\n1     |Bar\n6     |  {$else}\n2     |Baz\n7     |  {$endif}\n8     |{$else}\n3     |Flarp\n9     |{$endif}\n---\n4:ConditionalDirective\n5:ConditionalDirective\n6:ConditionalDirective\n7:ConditionalDirective\n8:ConditionalDirective\n9:ConditionalDirective" });
    out
}

} // verus!
