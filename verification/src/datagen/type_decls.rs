use vstd::prelude::*;

use crate::datagen::TestCase;

verus! {

/// Pins this group's cases: their count, names and annotated texts.
pub open spec fn spec_group_ok(g: Seq<TestCase>) -> bool {
    &&& g.len() == 1
    &&& g[0].name@ == "variant_record"@
    &&& g[0].source@ == "_  |type\n_  |  TRec = record\n_  |  case Boolean of\n1  |    True: ({1}\n3^1|      Foo: Integer;\n4^1|      Bar: Integer\n1  |    );\n2  |    False: ({2}\n5^2|      Baz: Double\n2  |    );\n_  |  end;\n---\n1:VariantRecordCaseArm\n2:VariantRecordCaseArm\n3:Declaration\n4:Declaration\n5:Declaration"@
}


/// The corpus this group contributes to the parser data tests: each case's
/// text carries the source lines (after `|`) with their logical-line
/// assignments (before `|`, with `^` for parent links), and the expected
/// line kinds after the `---` rule.
pub fn generate() -> (r: Vec<TestCase>)
    ensures
        spec_group_ok(r@),
{
    let mut out: Vec<TestCase> = Vec::new();
    out.push(TestCase { name: "variant_record", source: "_  |type\n_  |  TRec = record\n_  |  case Boolean of\n1  |    True: ({1}\n3^1|      Foo: Integer;\n4^1|      Bar: Integer\n1  |    );\n2  |    False: ({2}\n5^2|      Baz: Double\n2  |    );\n_  |  end;\n---\n1:VariantRecordCaseArm\n2:VariantRecordCaseArm\n3:Declaration\n4:Declaration\n5:Declaration" });
    out
}

} // verus!
