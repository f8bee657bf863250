use vstd::prelude::*;

use crate::lang::{Token, TokenMarker};

verus! {

/// Recognises the `{pasfmt off}` / `{pasfmt on}` comments (block or line
/// form, case-sensitive) and marks every token from an `off` marker
/// (inclusive) up to the next `on` marker (exclusive) as frozen.
pub struct FormattingToggler {}

/// The bytes of `{pasfmt off}`.
pub open spec fn spec_off_marker() -> Seq<u8> {
    seq![123u8, 112u8, 97u8, 115u8, 102u8, 109u8, 116u8, 32u8, 111u8, 102u8, 102u8, 125u8]
}

/// The bytes of `{pasfmt on}`.
pub open spec fn spec_on_marker() -> Seq<u8> {
    seq![123u8, 112u8, 97u8, 115u8, 102u8, 109u8, 116u8, 32u8, 111u8, 110u8, 125u8]
}

/// The bytes of `// pasfmt off`.
pub open spec fn spec_off_line_marker() -> Seq<u8> {
    seq![47u8, 47u8, 32u8, 112u8, 97u8, 115u8, 102u8, 109u8, 116u8, 32u8, 111u8, 102u8, 102u8]
}

/// The bytes of `// pasfmt on`.
pub open spec fn spec_on_line_marker() -> Seq<u8> {
    seq![47u8, 47u8, 32u8, 112u8, 97u8, 115u8, 102u8, 109u8, 116u8, 32u8, 111u8, 110u8]
}

pub open spec fn spec_is_off(c: Seq<u8>) -> bool {
    c == spec_off_marker() || c == spec_off_line_marker()
}

pub open spec fn spec_is_on(c: Seq<u8>) -> bool {
    c == spec_on_marker() || c == spec_on_line_marker()
}

/// Whether token `i` is frozen: the frozen state as of token `i`, where an
/// `off` marker freezes itself and what follows, and an `on` marker thaws
/// itself and what follows.
pub open spec fn spec_frozen(toks: Seq<Token>, i: int) -> bool
    decreases i,
{
    if i < 0 || i >= toks.len() {
        false
    } else if spec_is_off(toks[i].spec_content()) {
        true
    } else if spec_is_on(toks[i].spec_content()) {
        false
    } else if i == 0 {
        false
    } else {
        spec_frozen(toks, i - 1)
    }
}

pub(crate) fn bytes_eq(a: &[u8], b: &Vec<u8>) -> (r: bool)
    ensures
        r == (a@ == b@),
{
    if a.len() != b.len() {
        proof {
            assert(a@ != b@);
        }
        return false;
    }
    let mut i: usize = 0;
    while i < a.len()
        invariant
            i <= a@.len(),
            a@.len() == b@.len(),
            forall|j: int| 0 <= j < i ==> a@[j] == b@[j],
        decreases a@.len() - i,
    {
        if a[i] != b[i] {
            proof {
                assert(a@ != b@);
            }
            return false;
        }
        i = i + 1;
    }
    proof {
        assert(a@ =~= b@);
    }
    true
}

fn off_block_marker() -> (r: Vec<u8>)
    ensures
        r@ == spec_off_marker(),
{
    let r: Vec<u8> = vec![123u8, 112u8, 97u8, 115u8, 102u8, 109u8, 116u8, 32u8, 111u8, 102u8, 102u8, 125u8];
    proof {
        assert(r@ =~= spec_off_marker());
    }
    r
}

fn on_block_marker() -> (r: Vec<u8>)
    ensures
        r@ == spec_on_marker(),
{
    let r: Vec<u8> = vec![123u8, 112u8, 97u8, 115u8, 102u8, 109u8, 116u8, 32u8, 111u8, 110u8, 125u8];
    proof {
        assert(r@ =~= spec_on_marker());
    }
    r
}

fn off_line_marker() -> (r: Vec<u8>)
    ensures
        r@ == spec_off_line_marker(),
{
    let r: Vec<u8> = vec![47u8, 47u8, 32u8, 112u8, 97u8, 115u8, 102u8, 109u8, 116u8, 32u8, 111u8, 102u8, 102u8];
    proof {
        assert(r@ =~= spec_off_line_marker());
    }
    r
}

fn on_line_marker() -> (r: Vec<u8>)
    ensures
        r@ == spec_on_line_marker(),
{
    let r: Vec<u8> = vec![47u8, 47u8, 32u8, 112u8, 97u8, 115u8, 102u8, 109u8, 116u8, 32u8, 111u8, 110u8];
    proof {
        assert(r@ =~= spec_on_line_marker());
    }
    r
}

impl FormattingToggler {
    /// Marks exactly the frozen tokens: index `i` is marked if and only if it
    /// lies in an off..on range of the token stream.
    pub fn mark_ignored(&self, tokens: &Vec<Token>) -> (r: TokenMarker)
        requires
            forall|i: int| 0 <= i < tokens@.len() ==> (#[trigger] tokens@[i]).wf(),
        ensures
            r.spec_len() == tokens@.len(),
            forall|i: int|
                0 <= i < tokens@.len() ==> r.spec_is_marked(i) == spec_frozen(tokens@, i),
            forall|i: int| i < 0 || i >= tokens@.len() ==> !r.spec_is_marked(i),
    {
        let off_b = off_block_marker();
        let on_b = on_block_marker();
        let off_l = off_line_marker();
        let on_l = on_line_marker();
        let mut marker = TokenMarker::new_unmarked(tokens.len());
        let mut frozen = false;
        let mut i: usize = 0;
        while i < tokens.len()
            invariant
                i <= tokens@.len(),
                marker.spec_len() == tokens@.len(),
                forall|k: int| 0 <= k < tokens@.len() ==> (#[trigger] tokens@[k]).wf(),
                off_b@ == spec_off_marker(),
                on_b@ == spec_on_marker(),
                off_l@ == spec_off_line_marker(),
                on_l@ == spec_on_line_marker(),
                frozen == (i > 0 && spec_frozen(tokens@, i - 1)),
                forall|k: int| 0 <= k < i ==> marker.spec_is_marked(k) == spec_frozen(tokens@, k),
                forall|k: int| i <= k ==> !marker.spec_is_marked(k),
                forall|k: int| k < 0 ==> !marker.spec_is_marked(k),
            decreases tokens@.len() - i,
        {
            let content = tokens[i].get_content();
            if bytes_eq(content, &off_b) || bytes_eq(content, &off_l) {
                frozen = true;
            } else if bytes_eq(content, &on_b) || bytes_eq(content, &on_l) {
                frozen = false;
            }
            if frozen {
                marker.mark(i);
            }
            i = i + 1;
        }
        marker
    }
}

} // verus!
