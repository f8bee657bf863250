use vstd::prelude::*;

use crate::keywords::{lower_bytes, spec_lower_bytes};
use crate::lang::{FormattedTokens, LogicalLine, TokenType};

verus! {

/// Folds every keyword token to ASCII lower case. Impure keywords that stayed
/// identifiers are untouched; frozen tokens are skipped.
pub struct LowercaseKeywords {}

/// No byte of `s` is an ASCII upper-case letter.
pub open spec fn spec_no_upper(s: Seq<u8>) -> bool {
    forall|i: int| 0 <= i < s.len() ==> !(65 <= #[trigger] s[i] <= 90)
}

/// Lower-casing is idempotent: a second fold changes nothing.
pub proof fn lemma_lower_bytes_idempotent(s: Seq<u8>)
    ensures
        spec_lower_bytes(spec_lower_bytes(s)) == spec_lower_bytes(s),
        spec_no_upper(s) ==> spec_lower_bytes(s) == s,
{
    assert(spec_lower_bytes(spec_lower_bytes(s)) =~= spec_lower_bytes(s));
    if spec_no_upper(s) {
        assert(spec_lower_bytes(s) =~= s);
    }
}

impl LowercaseKeywords {
    /// Every keyword token's content is ASCII-lowercase afterwards; every
    /// other token, every frozen token, every token's type, whitespace and
    /// formatting data are unchanged. Formatting an already lower-cased
    /// keyword changes nothing, so a second run of this pass is a no-op.
    pub fn format(&self, formatted_tokens: &mut FormattedTokens<'_>, _input: &Vec<LogicalLine>)
        requires
            old(formatted_tokens).wf(),
        ensures
            final(formatted_tokens).wf(),
            final(formatted_tokens).spec_tokens().len() == old(formatted_tokens).spec_tokens().len(),
            forall|i: int|
                0 <= i < old(formatted_tokens).spec_tokens().len() ==> {
                    let o = old(formatted_tokens).spec_tokens()[i];
                    let n = #[trigger] final(formatted_tokens).spec_tokens()[i];
                    &&& n.1 == o.1
                    &&& n.0.spec_type() == o.0.spec_type()
                    &&& n.0.spec_ws() == o.0.spec_ws()
                    &&& if o.0.spec_type() is Keyword && !o.1.spec_is_ignored() {
                        n.0.spec_content() == spec_lower_bytes(o.0.spec_content())
                    } else {
                        n.0 == o.0
                    }
                },
    {
        let ghost orig = formatted_tokens.spec_tokens();
        let n = formatted_tokens.len();
        let mut i: usize = 0;
        while i < n
            invariant
                n == orig.len(),
                i <= n,
                formatted_tokens.wf(),
                formatted_tokens.spec_tokens().len() == orig.len(),
                forall|j: int| i <= j < orig.len() ==> #[trigger] formatted_tokens.spec_tokens()[j] == orig[j],
                forall|j: int|
                    0 <= j < i ==> {
                        let o = orig[j];
                        let nw = #[trigger] formatted_tokens.spec_tokens()[j];
                        &&& nw.1 == o.1
                        &&& nw.0.spec_type() == o.0.spec_type()
                        &&& nw.0.spec_ws() == o.0.spec_ws()
                        &&& if o.0.spec_type() is Keyword && !o.1.spec_is_ignored() {
                            nw.0.spec_content() == spec_lower_bytes(o.0.spec_content())
                        } else {
                            nw.0 == o.0
                        }
                    },
            decreases n - i,
        {
            let pair = formatted_tokens.get_token_mut(i).unwrap();
            let is_kw = matches!(pair.0.get_token_type(), TokenType::Keyword(_));
            if is_kw && !pair.1.is_ignored() {
                let lowered = lower_bytes(pair.0.get_content());
                pair.0.set_content(lowered);
            }
            i = i + 1;
        }
    }
}

} // verus!
