use vstd::prelude::*;

use crate::comment_contents::{spec_format_directive, spec_format_line_comment, CommentFormatter};
use crate::keywords::spec_lower_bytes;
use crate::lang::{
    spec_count_byte, spec_last_line_start, spec_strip_trailing_cr, FormattedTokens,
    FormattingData, LogicalLine, LogicalLineType, ReconstructionSettings, Token, TokenType,
};
use crate::lexer::{spec_flatten, DelphiLexer};
use crate::lowercase_keywords::LowercaseKeywords;
use crate::reconstructor::{spec_rendered_ws, DelphiLogicalLinesReconstructor};
use crate::toggler::{spec_frozen, FormattingToggler};

verus! {

use crate::lang::CommentKind as CK;
use crate::lang::TokenType as TT;

/// What the comment-and-directive pass makes of one token's content.
pub open spec fn spec_comment_pass_content(t: TokenType, c: Seq<u8>) -> Seq<u8> {
    match t {
        TT::Comment(CK::InlineLine) | TT::Comment(CK::IndividualLine) => spec_format_line_comment(
            c,
        ),
        TT::CompilerDirective | TT::ConditionalDirective(_) => spec_format_directive(c),
        _ => c,
    }
}

/// What the keyword-casing pass makes of one token's content.
pub open spec fn spec_keyword_pass_content(t: TokenType, c: Seq<u8>) -> Seq<u8> {
    if t is Keyword {
        spec_lower_bytes(c)
    } else {
        c
    }
}

/// One token's content after the pipeline's rewrites: untouched when frozen,
/// else normalised by the comment/directive pass and then the keyword pass.
pub open spec fn spec_normalized_content(t: TokenType, frozen: bool, c: Seq<u8>) -> Seq<u8> {
    if frozen {
        c
    } else {
        spec_keyword_pass_content(t, spec_comment_pass_content(t, c))
    }
}

/// The formatting data this pipeline derives from a token's own whitespace.
pub open spec fn spec_token_data(ws: Seq<u8>, frozen: bool) -> FormattingData {
    FormattingData {
        ignored: frozen,
        newlines_before: spec_count_byte(ws, 10u8) as usize,
        indentations_before: 0usize,
        continuations_before: 0usize,
        spaces_before: spec_strip_trailing_cr(ws.skip(spec_last_line_start(ws))).len() as usize,
    }
}

/// The bytes one token contributes to the pipeline's output: its original
/// whitespace verbatim when frozen, else its whitespace re-rendered from its
/// own run; then its normalised content.
pub open spec fn spec_formatted_token_bytes(
    nl: Seq<u8>,
    ind: Seq<u8>,
    cont: Seq<u8>,
    tok: Token,
    frozen: bool,
) -> Seq<u8> {
    let content = spec_normalized_content(tok.spec_type(), frozen, tok.spec_content());
    if frozen {
        tok.spec_ws() + content
    } else {
        spec_rendered_ws(nl, ind, cont, spec_token_data(tok.spec_ws(), frozen)) + content
    }
}

/// The whole pipeline output over a lexed token sequence, each token frozen
/// exactly where the formatting toggle marks it.
pub open spec fn spec_pipeline_bytes(
    nl: Seq<u8>,
    ind: Seq<u8>,
    cont: Seq<u8>,
    toks: Seq<Token>,
) -> Seq<u8>
    decreases toks.len(),
{
    if toks.len() == 0 {
        Seq::empty()
    } else {
        spec_pipeline_bytes(nl, ind, cont, toks.drop_last()) + spec_formatted_token_bytes(
            nl,
            ind,
            cont,
            toks.last(),
            spec_frozen(toks, toks.len() - 1),
        )
    }
}

/// The frozen state of a token does not depend on the tokens after it.
proof fn lemma_frozen_prefix(toks: Seq<Token>, i: int)
    requires
        0 <= i < toks.len() - 1,
    ensures
        spec_frozen(toks.drop_last(), i) == spec_frozen(toks, i),
    decreases i,
{
    assert(toks.drop_last()[i] == toks[i]);
    if !crate::toggler::spec_is_off(toks[i].spec_content()) && !crate::toggler::spec_is_on(
        toks[i].spec_content(),
    ) && i > 0 {
        lemma_frozen_prefix(toks, i - 1);
    }
}

/// The reconstruction of tokens normalised pair by pair is the pipeline
/// output of the original token sequence.
proof fn lemma_pipeline_bytes(
    nl: Seq<u8>,
    ind: Seq<u8>,
    cont: Seq<u8>,
    toks: Seq<Token>,
    pairs: Seq<(Token, FormattingData)>,
)
    requires
        pairs.len() == toks.len(),
        forall|i: int|
            0 <= i < toks.len() ==> (#[trigger] pairs[i]).1 == spec_token_data(
                toks[i].spec_ws(),
                spec_frozen(toks, i),
            ),
        forall|i: int| 0 <= i < toks.len() ==> (#[trigger] pairs[i]).0.spec_ws() == toks[i].spec_ws(),
        forall|i: int|
            0 <= i < toks.len() ==> (#[trigger] pairs[i]).0.spec_content()
                == spec_normalized_content(
                toks[i].spec_type(),
                spec_frozen(toks, i),
                toks[i].spec_content(),
            ),
    ensures
        crate::reconstructor::spec_reconstruct(nl, ind, cont, pairs) == spec_pipeline_bytes(
            nl,
            ind,
            cont,
            toks,
        ),
    decreases toks.len(),
{
    if toks.len() > 0 {
        assert forall|i: int| 0 <= i < toks.len() - 1 implies spec_frozen(toks.drop_last(), i)
            == spec_frozen(toks, i) by {
            lemma_frozen_prefix(toks, i);
        }
        assert(forall|i: int|
            0 <= i < toks.len() - 1 ==> #[trigger] pairs.drop_last()[i] == pairs[i]);
        assert(forall|i: int|
            0 <= i < toks.len() - 1 ==> #[trigger] toks.drop_last()[i] == toks[i]);
        lemma_pipeline_bytes(nl, ind, cont, toks.drop_last(), pairs.drop_last());
    }
}

/// A formatting pass over the whole token array, either applied line by line
/// or to the file at once.
pub enum FormatterKind {
    LineFormatter(CommentFormatter),
    FileFormatter(LowercaseKeywords),
}

/// The effect of one pass on the token array: frame facts plus the rewrite
/// the pass performs, by its kind.
pub open spec fn spec_pass_rel(
    kind: FormatterKind,
    o: Seq<(Token, FormattingData)>,
    n: Seq<(Token, FormattingData)>,
) -> bool {
    &&& n.len() == o.len()
    &&& forall|i: int|
        0 <= i < o.len() ==> {
            let ot = (#[trigger] o[i]).0;
            let nt = (#[trigger] n[i]).0;
            &&& n[i].1 == o[i].1
            &&& nt.spec_type() == ot.spec_type()
            &&& nt.spec_ws() == ot.spec_ws()
            &&& (o[i].1.spec_is_ignored() ==> nt == ot)
            &&& nt.spec_content() == (if o[i].1.spec_is_ignored() {
                ot.spec_content()
            } else {
                match kind {
                    FormatterKind::LineFormatter(_) => spec_comment_pass_content(
                        ot.spec_type(),
                        ot.spec_content(),
                    ),
                    FormatterKind::FileFormatter(_) => spec_keyword_pass_content(
                        ot.spec_type(),
                        ot.spec_content(),
                    ),
                }
            })
        }
}

impl FormatterKind {
    /// The pass rewrites exactly what its kind says: comment and directive
    /// contents for the line pass, keyword casing for the file pass; token
    /// count, types, whitespace, formatting data and every frozen token are
    /// preserved.
    pub fn format(&self, formatted_tokens: &mut FormattedTokens<'_>, input: &Vec<LogicalLine>)
        requires
            old(formatted_tokens).wf(),
        ensures
            final(formatted_tokens).wf(),
            spec_pass_rel(
                *self,
                old(formatted_tokens).spec_tokens(),
                final(formatted_tokens).spec_tokens(),
            ),
    {
        let ghost o = formatted_tokens.spec_tokens();
        match self {
            FormatterKind::LineFormatter(f) => {
                f.format(formatted_tokens, input);
                proof {
                    assert forall|i: int| 0 <= i < o.len() implies {
                        let ot = (#[trigger] o[i]).0;
                        let nt = formatted_tokens.spec_tokens()[i].0;
                        nt.spec_content() == (if o[i].1.spec_is_ignored() {
                            ot.spec_content()
                        } else {
                            spec_comment_pass_content(ot.spec_type(), ot.spec_content())
                        })
                    } by {
                        assert(formatted_tokens.spec_tokens()[i].1 == o[i].1);
                    }
                }
            },
            FormatterKind::FileFormatter(f) => {
                f.format(formatted_tokens, input);
                proof {
                    assert forall|i: int| 0 <= i < o.len() implies {
                        let ot = (#[trigger] o[i]).0;
                        let nt = formatted_tokens.spec_tokens()[i].0;
                        nt.spec_content() == (if o[i].1.spec_is_ignored() {
                            ot.spec_content()
                        } else {
                            spec_keyword_pass_content(ot.spec_type(), ot.spec_content())
                        })
                    } by {
                        assert(formatted_tokens.spec_tokens()[i].1 == o[i].1);
                    }
                }
            },
        }
    }
}

/// Applies a formatting pass only to logical lines of selected kinds.
pub struct FormatterSelector {
    entries: Vec<(LogicalLineType, FormatterKind)>,
}

/// The first entry configured for the line kind, or -1 when none is.
pub open spec fn spec_first_entry(
    entries: Seq<(LogicalLineType, FormatterKind)>,
    lt: LogicalLineType,
) -> int
    decreases entries.len(),
{
    if entries.len() == 0 {
        -1
    } else if entries[0].0 == lt {
        0
    } else {
        let rest = spec_first_entry(entries.drop_first(), lt);
        if rest < 0 {
            -1
        } else {
            rest + 1
        }
    }
}

impl FormatterSelector {
    pub closed spec fn spec_entries(&self) -> Seq<(LogicalLineType, FormatterKind)> {
        self.entries@
    }

    pub fn new(entries: Vec<(LogicalLineType, FormatterKind)>) -> (r: Self)
        ensures
            r.spec_entries() == entries@,
    {
        FormatterSelector { entries }
    }

    /// Runs the pass selected for the line's kind: the first configured
    /// entry for that kind applies its rewrite; a line of an unconfigured
    /// kind leaves every token untouched.
    pub fn format(&self, formatted_tokens: &mut FormattedTokens<'_>, input: &LogicalLine)
        requires
            old(formatted_tokens).wf(),
        ensures
            final(formatted_tokens).wf(),
            spec_first_entry(self.spec_entries(), input.spec_line_type()) < 0
                ==> final(formatted_tokens).spec_tokens() == old(formatted_tokens).spec_tokens(),
            spec_first_entry(self.spec_entries(), input.spec_line_type()) >= 0 ==> spec_pass_rel(
                self.spec_entries()[spec_first_entry(
                    self.spec_entries(),
                    input.spec_line_type(),
                )].1,
                old(formatted_tokens).spec_tokens(),
                final(formatted_tokens).spec_tokens(),
            ),
    {
        let line_type = input.get_line_type();
        let n = self.entries.len();
        let mut k: usize = 0;
        while k < n
            invariant
                k <= n,
                n == self.spec_entries().len(),
                line_type == input.spec_line_type(),
                formatted_tokens.wf(),
                formatted_tokens.spec_tokens() == old(formatted_tokens).spec_tokens(),
                forall|e: int| 0 <= e < k ==> (#[trigger] self.spec_entries()[e]).0 != line_type,
            decreases n - k,
        {
            if self.entries[k].0 == line_type {
                proof {
                    lemma_first_entry_at(self.spec_entries(), line_type, k as int);
                }
                self.entries[k].1.format(formatted_tokens, &Vec::new());
                return ;
            }
            k = k + 1;
        }
        proof {
            lemma_first_entry_none(self.spec_entries(), line_type);
        }
    }
}

/// When no entry before `k` is configured for the kind and entry `k` is, it
/// is the first configured entry.
proof fn lemma_first_entry_at(
    entries: Seq<(LogicalLineType, FormatterKind)>,
    lt: LogicalLineType,
    k: int,
)
    requires
        0 <= k < entries.len(),
        entries[k].0 == lt,
        forall|e: int| 0 <= e < k ==> (#[trigger] entries[e]).0 != lt,
    ensures
        spec_first_entry(entries, lt) == k,
    decreases k,
{
    if k > 0 {
        assert(forall|e: int|
            0 <= e < k - 1 ==> #[trigger] entries.drop_first()[e] == entries[e + 1]);
        lemma_first_entry_at(entries.drop_first(), lt, k - 1);
    }
}

/// When no entry is configured for the kind, the lookup reports none.
proof fn lemma_first_entry_none(
    entries: Seq<(LogicalLineType, FormatterKind)>,
    lt: LogicalLineType,
)
    requires
        forall|e: int| 0 <= e < entries.len() ==> (#[trigger] entries[e]).0 != lt,
    ensures
        spec_first_entry(entries, lt) < 0,
    decreases entries.len(),
{
    if entries.len() > 0 {
        assert(forall|e: int|
            0 <= e < entries.len() - 1 ==> #[trigger] entries.drop_first()[e] == entries[e + 1]);
        lemma_first_entry_none(entries.drop_first(), lt);
    }
}



/// The idempotence of the pipeline's rewrites: normalising a token's content
/// twice equals normalising it once, for every token kind and content. (The
/// comment, directive and keyword rewrites are each idempotent, and they act
/// on disjoint token kinds.)
pub proof fn lemma_normalized_content_idempotent(t: TokenType, frozen: bool, c: Seq<u8>)
    ensures
        spec_normalized_content(t, frozen, spec_normalized_content(t, frozen, c))
            == spec_normalized_content(t, frozen, c),
{
    if !frozen {
        match t {
            TT::Comment(CK::InlineLine) | TT::Comment(CK::IndividualLine) => {
                crate::comment_contents::lemma_comment_prefix_law(c);
            },
            TT::CompilerDirective | TT::ConditionalDirective(_) => {
                crate::comment_contents::lemma_directive_casing_law(c);
            },
            TT::Keyword(_) => {
                crate::lowercase_keywords::lemma_lower_bytes_idempotent(c);
            },
            _ => {},
        }
    }
}

/// From an `off` marker at the start of the file, and no `on` marker
/// anywhere, every token is frozen.
pub proof fn lemma_frozen_from_start(toks: Seq<Token>, i: int)
    requires
        toks.len() >= 1,
        crate::toggler::spec_is_off(toks[0].spec_content()),
        forall|j: int| 0 <= j < toks.len() ==> !crate::toggler::spec_is_on(
            (#[trigger] toks[j]).spec_content(),
        ),
        0 <= i < toks.len(),
    ensures
        spec_frozen(toks, i),
    decreases i,
{
    if i > 0 && !crate::toggler::spec_is_off(toks[i].spec_content()) {
        lemma_frozen_from_start(toks, i - 1);
    }
}

/// The round trip of ignored formatting: when every token is frozen, the
/// pipeline emits the token stream byte for byte — with the lexer's totality,
/// a file opening with `{pasfmt off}` and holding no `{pasfmt on}` is
/// reproduced byte-identically.
pub proof fn lemma_frozen_pipeline_verbatim(
    nl: Seq<u8>,
    ind: Seq<u8>,
    cont: Seq<u8>,
    toks: Seq<Token>,
)
    requires
        forall|i: int| 0 <= i < toks.len() ==> spec_frozen(toks, i),
        forall|i: int| 0 <= i < toks.len() ==> (#[trigger] toks[i]).wf(),
    ensures
        spec_pipeline_bytes(nl, ind, cont, toks) == spec_flatten(toks),
    decreases toks.len(),
{
    if toks.len() > 0 {
        assert forall|i: int| 0 <= i < toks.len() - 1 implies spec_frozen(
            toks.drop_last(),
            i,
        ) by {
            lemma_frozen_prefix(toks, i);
        }
        assert(forall|i: int|
            0 <= i < toks.len() - 1 ==> #[trigger] toks.drop_last()[i] == toks[i]);
        lemma_frozen_pipeline_verbatim(nl, ind, cont, toks.drop_last());
        let t = toks.last();
        assert(spec_formatted_token_bytes(nl, ind, cont, t, true) == t.spec_ws()
            + t.spec_content());
        assert(t.spec_ws() + t.spec_content() =~= t.spec_full());
    }
}

/// The per-file formatting pipeline this library carries: tokenize, mark the
/// frozen ranges, normalise comment and directive contents, lower-case the
/// keywords, and reconstruct the text.
pub struct Formatter {
    reconstructor: DelphiLogicalLinesReconstructor,
}

impl Formatter {
    pub closed spec fn spec_settings(&self) -> ReconstructionSettings {
        self.reconstructor.spec_settings()
    }

    pub fn new(recon_settings: ReconstructionSettings) -> (r: Formatter)
        ensures
            r.spec_settings() == recon_settings,
    {
        Formatter { reconstructor: DelphiLogicalLinesReconstructor::new(recon_settings) }
    }

    /// Formats one file. The output is the pipeline rendering of the lexed
    /// token sequence — below the 4 GiB whitespace-counter bound the witness
    /// is pinned token for token to the tokenization `spec_lex_from`, and
    /// with it the output: every frozen token emitted verbatim, every other
    /// token's whitespace re-rendered from its own run, line comments,
    /// directive headers and keyword casing normalised.
    pub fn format(&self, input: &[u8]) -> (r: Vec<u8>)
        ensures
            exists|toks: Seq<Token>|
                {
                    &&& toks.len() >= 1
                    &&& (forall|i: int| 0 <= i < toks.len() ==> (#[trigger] toks[i]).wf())
                    &&& toks[toks.len() - 1].spec_type() == TokenType::Eof
                    &&& (input@.len() < 0x1_0000_0000 ==> spec_flatten(toks) == input@)
                    &&& (input@.len() < 0x1_0000_0000 ==> toks.len() == crate::lexer::spec_lex_from(
                        input@,
                        0,
                        false,
                        true,
                    ).len() && (forall|i: int|
                        0 <= i < toks.len() ==> {
                            let d = #[trigger] crate::lexer::spec_lex_from(
                                input@,
                                0,
                                false,
                                true,
                            )[i];
                            &&& toks[i].spec_full() == input@.subrange(d.0, d.2)
                            &&& toks[i].spec_ws_len() == d.1 - d.0
                            &&& toks[i].spec_type() == d.3
                        }))
                    &&& r@ == #[trigger] spec_pipeline_bytes(
                        self.spec_settings().spec_newline(),
                        self.spec_settings().spec_indentation(),
                        self.spec_settings().spec_continuation(),
                        toks,
                    )
                },
    {
        let ghost nl = self.spec_settings().spec_newline();
        let ghost ind = self.spec_settings().spec_indentation();
        let ghost cont = self.spec_settings().spec_continuation();
        let lexer = DelphiLexer {};
        let tokens: Vec<Token> = lexer.lex(input);
        let ghost toks = tokens@;
        let toggler = FormattingToggler {};
        let marker = toggler.mark_ignored(&tokens);
        let mut formatted = FormattedTokens::new_from_tokens(tokens, &marker);
        proof {
            assert forall|i: int| 0 <= i < toks.len() implies (
            #[trigger] formatted.spec_tokens()[i]).1 == spec_token_data(
                toks[i].spec_ws(),
                spec_frozen(toks, i),
            ) by {
                assert(formatted.spec_tokens()[i].1.spec_is_ignored() == spec_frozen(toks, i));
            }
        }
        let ghost seeded = formatted.spec_tokens();
        let lines: Vec<LogicalLine> = Vec::new();
        let comments = CommentFormatter {};
        comments.format(&mut formatted, &lines);
        let ghost after_comments = formatted.spec_tokens();
        let keywords = LowercaseKeywords {};
        keywords.format(&mut formatted, &lines);
        proof {
            assert forall|i: int| 0 <= i < toks.len() implies {
                let p = #[trigger] formatted.spec_tokens()[i];
                &&& p.1 == spec_token_data(toks[i].spec_ws(), spec_frozen(toks, i))
                &&& p.0.spec_ws() == toks[i].spec_ws()
                &&& p.0.spec_content() == spec_normalized_content(
                    toks[i].spec_type(),
                    spec_frozen(toks, i),
                    toks[i].spec_content(),
                )
            } by {
                assert(after_comments[i].1 == seeded[i].1);
                assert(seeded[i].1.spec_is_ignored() == spec_frozen(toks, i));
                if spec_frozen(toks, i) {
                    assert(after_comments[i].0 == seeded[i].0);
                    assert(formatted.spec_tokens()[i].0 == after_comments[i].0);
                } else {
                    assert(after_comments[i].0.spec_content() == spec_comment_pass_content(
                        toks[i].spec_type(),
                        toks[i].spec_content(),
                    ));
                    if toks[i].spec_type() is Keyword {
                        assert(formatted.spec_tokens()[i].0.spec_content() == spec_lower_bytes(
                            after_comments[i].0.spec_content(),
                        ));
                    } else {
                        assert(formatted.spec_tokens()[i].0 == after_comments[i].0);
                    }
                }
            }
            lemma_pipeline_bytes(nl, ind, cont, toks, formatted.spec_tokens());
        }
        let out = self.reconstructor.reconstruct(&formatted);
        proof {
            assert(out@ == spec_pipeline_bytes(nl, ind, cont, toks));
        }
        out
    }
}

} // verus!
