use vstd::prelude::*;

use crate::lang::{FormattedTokens, FormattingData, ReconstructionSettings, Token};

verus! {

/// Materialises formatting decisions back into text: each token is emitted as
/// composed whitespace (or its original whitespace verbatim when frozen)
/// followed by its content.
pub struct DelphiLogicalLinesReconstructor {
    recon_settings: ReconstructionSettings,
}

/// `s` repeated `n` times.
pub open spec fn spec_repeat(s: Seq<u8>, n: nat) -> Seq<u8>
    decreases n,
{
    if n == 0 {
        Seq::empty()
    } else {
        spec_repeat(s, (n - 1) as nat) + s
    }
}

/// The whitespace rendered for one token: newlines, then indentation units,
/// then continuation units, then single spaces.
pub open spec fn spec_rendered_ws(
    nl: Seq<u8>,
    ind: Seq<u8>,
    cont: Seq<u8>,
    data: FormattingData,
) -> Seq<u8> {
    spec_repeat(nl, data.newlines_before as nat) + spec_repeat(ind, data.indentations_before as nat)
        + spec_repeat(cont, data.continuations_before as nat) + spec_repeat(
        seq![32u8],
        data.spaces_before as nat,
    )
}

/// The bytes one token contributes to the output.
pub open spec fn spec_emitted(
    nl: Seq<u8>,
    ind: Seq<u8>,
    cont: Seq<u8>,
    pair: (Token, FormattingData),
) -> Seq<u8> {
    if pair.1.spec_is_ignored() {
        pair.0.spec_ws() + pair.0.spec_content()
    } else {
        spec_rendered_ws(nl, ind, cont, pair.1) + pair.0.spec_content()
    }
}

/// The whole reconstructed output.
pub open spec fn spec_reconstruct(
    nl: Seq<u8>,
    ind: Seq<u8>,
    cont: Seq<u8>,
    toks: Seq<(Token, FormattingData)>,
) -> Seq<u8>
    decreases toks.len(),
{
    if toks.len() == 0 {
        Seq::empty()
    } else {
        spec_reconstruct(nl, ind, cont, toks.drop_last()) + spec_emitted(nl, ind, cont, toks.last())
    }
}

/// A frozen token is reconstructed byte for byte: what it contributes is
/// exactly its original whitespace and content.
pub proof fn lemma_frozen_token_verbatim(
    nl: Seq<u8>,
    ind: Seq<u8>,
    cont: Seq<u8>,
    pair: (Token, FormattingData),
)
    requires
        pair.1.spec_is_ignored(),
        pair.0.wf(),
    ensures
        spec_emitted(nl, ind, cont, pair) == pair.0.spec_full(),
{
    assert(pair.0.spec_ws() + pair.0.spec_content() =~= pair.0.spec_full());
}

/// A fully frozen token stream reconstructs to the concatenation of its
/// tokens' original bytes: together with the lexer's totality, a file whose
/// tokens are all frozen is emitted byte-identical.
pub proof fn lemma_frozen_tokens_verbatim(
    nl: Seq<u8>,
    ind: Seq<u8>,
    cont: Seq<u8>,
    toks: Seq<(Token, FormattingData)>,
)
    requires
        forall|i: int| 0 <= i < toks.len() ==> (#[trigger] toks[i]).1.spec_is_ignored(),
        forall|i: int| 0 <= i < toks.len() ==> (#[trigger] toks[i]).0.wf(),
    ensures
        spec_reconstruct(nl, ind, cont, toks) == crate::lexer::spec_flatten(
            toks.map_values(|p: (Token, FormattingData)| p.0),
        ),
    decreases toks.len(),
{
    let m = toks.map_values(|p: (Token, FormattingData)| p.0);
    if toks.len() == 0 {
        assert(m.len() == 0);
    } else {
        lemma_frozen_tokens_verbatim(nl, ind, cont, toks.drop_last());
        lemma_frozen_token_verbatim(nl, ind, cont, toks.last());
        assert(toks.drop_last().map_values(|p: (Token, FormattingData)| p.0) =~= m.drop_last());
        assert(m.last() == toks.last().0);
    }
}

fn push_repeated(out: &mut Vec<u8>, s: &Vec<u8>, n: usize)
    ensures
        final(out)@ == old(out)@ + spec_repeat(s@, n as nat),
{
    let mut k: usize = 0;
    while k < n
        invariant
            k <= n,
            out@ == old(out)@ + spec_repeat(s@, k as nat),
        decreases n - k,
    {
        let ghost before = out@;
        let mut chunk = vstd::slice::slice_to_vec(s.as_slice());
        out.append(&mut chunk);
        k = k + 1;
        proof {
            assert(out@ == before + s@);
            assert(spec_repeat(s@, k as nat) == spec_repeat(s@, (k - 1) as nat) + s@);
            assert(old(out)@ + spec_repeat(s@, k as nat) =~= (old(out)@ + spec_repeat(
                s@,
                (k - 1) as nat,
            )) + s@);
        }
    }
}

fn push_spaces(out: &mut Vec<u8>, n: usize)
    ensures
        final(out)@ == old(out)@ + spec_repeat(seq![32u8], n as nat),
{
    let mut k: usize = 0;
    while k < n
        invariant
            k <= n,
            out@ == old(out)@ + spec_repeat(seq![32u8], k as nat),
        decreases n - k,
    {
        let ghost before = out@;
        out.push(32);
        k = k + 1;
        proof {
            assert(out@ =~= before + seq![32u8]);
            assert(old(out)@ + spec_repeat(seq![32u8], k as nat) =~= (old(out)@ + spec_repeat(
                seq![32u8],
                (k - 1) as nat,
            )) + seq![32u8]);
        }
    }
}

fn push_bytes(out: &mut Vec<u8>, s: &[u8])
    ensures
        final(out)@ == old(out)@ + s@,
{
    let mut chunk = vstd::slice::slice_to_vec(s);
    out.append(&mut chunk);
}

impl DelphiLogicalLinesReconstructor {
    pub closed spec fn spec_settings(&self) -> ReconstructionSettings {
        self.recon_settings
    }

    pub fn new(recon_settings: ReconstructionSettings) -> (r: Self)
        ensures
            r.spec_settings() == recon_settings,
    {
        DelphiLogicalLinesReconstructor { recon_settings }
    }

    /// Emits the tokens in order: a frozen token's original whitespace
    /// verbatim, any other token's composed whitespace, then the content.
    /// Nothing stands between the last token and the end of the output.
    pub fn reconstruct(&self, formatted_tokens: &FormattedTokens<'_>) -> (r: Vec<u8>)
        requires
            formatted_tokens.wf(),
        ensures
            r@ == spec_reconstruct(
                self.spec_settings().spec_newline(),
                self.spec_settings().spec_indentation(),
                self.spec_settings().spec_continuation(),
                formatted_tokens.spec_tokens(),
            ),
    {
        let ghost nl = self.recon_settings.spec_newline();
        let ghost ind = self.recon_settings.spec_indentation();
        let ghost cont = self.recon_settings.spec_continuation();
        let ghost toks = formatted_tokens.spec_tokens();
        let mut out: Vec<u8> = Vec::new();
        let n = formatted_tokens.len();
        let mut i: usize = 0;
        while i < n
            invariant
                i <= n,
                n == toks.len(),
                formatted_tokens.wf(),
                formatted_tokens.spec_tokens() == toks,
                nl == self.spec_settings().spec_newline(),
                ind == self.spec_settings().spec_indentation(),
                cont == self.spec_settings().spec_continuation(),
                out@ == spec_reconstruct(nl, ind, cont, toks.take(i as int)),
            decreases n - i,
        {
            let ghost before = out@;
            let pair = formatted_tokens.get_token(i).unwrap();
            if pair.1.is_ignored() {
                push_bytes(&mut out, pair.0.get_leading_whitespace());
            } else {
                push_repeated(&mut out, self.recon_settings.get_newline_str(), pair.1.newlines_before);
                push_repeated(
                    &mut out,
                    self.recon_settings.get_indentation_str(),
                    pair.1.indentations_before,
                );
                push_repeated(
                    &mut out,
                    self.recon_settings.get_continuation_str(),
                    pair.1.continuations_before,
                );
                push_spaces(&mut out, pair.1.spaces_before);
            }
            push_bytes(&mut out, pair.0.get_content());
            i = i + 1;
            proof {
                assert(toks.take(i as int).drop_last() =~= toks.take(i - 1));
                assert(toks.take(i as int).last() == toks[i - 1]);
                assert(out@ =~= before + spec_emitted(nl, ind, cont, toks[i - 1]));
            }
        }
        proof {
            assert(toks.take(n as int) =~= toks);
        }
        out
    }
}

} // verus!
