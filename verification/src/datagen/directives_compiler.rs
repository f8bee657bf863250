use vstd::prelude::*;

use crate::datagen::TestCase;

verus! {

/// Pins this group's cases: their count, names and annotated texts.
pub open spec fn spec_group_ok(g: Seq<TestCase>) -> bool {
    &&& g.len() == 4
    &&& g[0].name@ == "individual"@
    &&& g[0].source@ == "1 |{$message 'boo'}\n---\n1:CompilerDirective"@
    &&& g[1].name@ == "nested"@
    &&& g[1].source@ == "1 |{$ifdef}\n2 |  {$message 'boo'}\n3 |{$endif}\n---\n1:ConditionalDirective\n2:CompilerDirective\n3:ConditionalDirective"@
    &&& g[2].name@ == "code_above_below"@
    &&& g[2].source@ == "_ |type\n1 |  {$RTTI}\n_ |  TFoo = class\n_ |  end\n---\n1:CompilerDirective"@
    &&& g[3].name@ == "mid_line"@
    &&& g[3].source@ == "_ |A {$J+} := B {$C+} + C {$C-};"@
}


/// The corpus this group contributes to the parser data tests: each case's
/// text carries the source lines (after `|`) with their logical-line
/// assignments (before `|`, with `^` for parent links), and the expected
/// line kinds after the `---` rule.
pub fn generate() -> (r: Vec<TestCase>)
    ensures
        spec_group_ok(r@),
{
    let mut out: Vec<TestCase> = Vec::new();
    out.push(TestCase { name: "individual", source: "1 |{$message 'boo'}\n---\n1:CompilerDirective" });
    out.push(TestCase { name: "nested", source: "1 |{$ifdef}\n2 |  {$message 'boo'}\n3 |{$endif}\n---\n1:ConditionalDirective\n2:CompilerDirective\n3:ConditionalDirective" });
    out.push(TestCase { name: "code_above_below", source: "_ |type\n1 |  {$RTTI}\n_ |  TFoo = class\n_ |  end\n---\n1:CompilerDirective" });
    out.push(TestCase { name: "mid_line", source: "_ |A {$J+} := B {$C+} + C {$C-};" });
    out
}

} // verus!
