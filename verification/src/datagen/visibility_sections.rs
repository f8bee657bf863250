use vstd::prelude::*;

use crate::datagen::TestCase;

verus! {

/// Pins this group's cases: their count, names and annotated texts.
pub open spec fn spec_group_ok(g: Seq<TestCase>) -> bool {
    &&& g.len() == 2
    &&& g[0].name@ == "strict_private_in_type"@
    &&& g[0].source@ == "_|type\n_|  TFoo = class\n_|  strict private\n_|    procedure Foo;\n_|  end;"@
    &&& g[1].name@ == "published_in_type"@
    &&& g[1].source@ == "_|type\n_|  TFoo = class\n_|  published\n_|    procedure Foo;\n_|  end;"@
}


/// The corpus this group contributes to the parser data tests: each case's
/// text carries the source lines (after `|`) with their logical-line
/// assignments (before `|`, with `^` for parent links), and the expected
/// line kinds after the `---` rule.
pub fn generate() -> (r: Vec<TestCase>)
    ensures
        spec_group_ok(r@),
{
    let mut out: Vec<TestCase> = Vec::new();
    out.push(TestCase { name: "strict_private_in_type", source: "_|type\n_|  TFoo = class\n_|  strict private\n_|    procedure Foo;\n_|  end;" });
    out.push(TestCase { name: "published_in_type", source: "_|type\n_|  TFoo = class\n_|  published\n_|    procedure Foo;\n_|  end;" });
    out
}

} // verus!
