use vstd::prelude::*;

use crate::datagen::TestCase;

verus! {

/// Pins this group's cases: their count, names and annotated texts.
pub open spec fn spec_group_ok(g: Seq<TestCase>) -> bool {
    &&& g.len() == 3
    &&& g[0].name@ == "procedure_header"@
    &&& g[0].source@ == "1|procedure Foo(Bar: Integer);\n---\n1:RoutineHeader"@
    &&& g[1].name@ == "function_header"@
    &&& g[1].source@ == "1|function Foo(Bar: Integer): Integer;\n---\n1:RoutineHeader"@
    &&& g[2].name@ == "class_function"@
    &&& g[2].source@ == "_|type\n_|  TFoo = class\n1|    class function Foo: Integer;\n_|  end;\n---\n1:RoutineHeader"@
}


/// The corpus this group contributes to the parser data tests: each case's
/// text carries the source lines (after `|`) with their logical-line
/// assignments (before `|`, with `^` for parent links), and the expected
/// line kinds after the `---` rule.
pub fn generate() -> (r: Vec<TestCase>)
    ensures
        spec_group_ok(r@),
{
    let mut out: Vec<TestCase> = Vec::new();
    out.push(TestCase { name: "procedure_header", source: "1|procedure Foo(Bar: Integer);\n---\n1:RoutineHeader" });
    out.push(TestCase { name: "function_header", source: "1|function Foo(Bar: Integer): Integer;\n---\n1:RoutineHeader" });
    out.push(TestCase { name: "class_function", source: "_|type\n_|  TFoo = class\n1|    class function Foo: Integer;\n_|  end;\n---\n1:RoutineHeader" });
    out
}

} // verus!
