use vstd::prelude::*;

use crate::lang::{
    FormattedTokens, FormattingData, LogicalLine, ReconstructionSettings, TextLiteralKind, Token,
    TokenType,
};
use crate::reconstructor::spec_repeat;

verus! {

/// Rewrites the interior of multiline string literals: each internal line
/// loses the indentation prefix of the trailing-quote line and gains the
/// indentation chosen for the token, rendered with the reconstruction
/// settings.
pub struct StringFormatter<'a> {
    pub recon_settings: &'a ReconstructionSettings,
}

/// A line terminator byte.
pub open spec fn spec_is_line_break(b: u8) -> bool {
    b == 10 || b == 13
}

/// The first line-break byte at or past `i`.
pub open spec fn spec_line_break_end(s: Seq<u8>, i: int) -> int
    decreases s.len() - i
        when 0 <= i <= s.len()
{
    if i < s.len() && !spec_is_line_break(s[i]) {
        spec_line_break_end(s, i + 1)
    } else {
        i
    }
}

proof fn lemma_line_break_end_bounds(s: Seq<u8>, i: int)
    requires
        0 <= i <= s.len(),
    ensures
        i <= spec_line_break_end(s, i) <= s.len(),
    decreases s.len() - i,
{
    if i < s.len() && !spec_is_line_break(s[i]) {
        lemma_line_break_end_bounds(s, i + 1);
    }
}

/// Pins the line end: the first break after a break-free run.
proof fn lemma_line_break_end_at(s: Seq<u8>, i: int, e: int)
    requires
        0 <= i <= e <= s.len(),
        forall|j: int| i <= j < e ==> !spec_is_line_break(#[trigger] s[j]),
        e == s.len() || spec_is_line_break(s[e]),
    ensures
        spec_line_break_end(s, i) == e,
    decreases e - i,
{
    if i < e {
        lemma_line_break_end_at(s, i + 1, e);
    }
}

/// Where the next line starts after the break at `e`: past a CRLF pair, or
/// past the single break byte.
pub open spec fn spec_next_line_start(s: Seq<u8>, e: int) -> int {
    if 0 <= e && e + 1 < s.len() && s[e] == 13 && s[e + 1] == 10 {
        e + 2
    } else {
        e + 1
    }
}

/// The lines of `s` from `i`, split at LF, CR, or CRLF, without terminators.
pub open spec fn spec_split_lines(s: Seq<u8>, i: int) -> Seq<Seq<u8>>
    decreases s.len() - i
        when 0 <= i <= s.len()
        via spec_split_lines_decreases
{
    let e = spec_line_break_end(s, i);
    if e >= s.len() {
        seq![s.subrange(i, s.len() as int)]
    } else {
        seq![s.subrange(i, e)] + spec_split_lines(s, spec_next_line_start(s, e))
    }
}

#[via_fn]
proof fn spec_split_lines_decreases(s: Seq<u8>, i: int) {
    lemma_line_break_end_bounds(s, i);
}

// Splits on LF, CR, or CRLF; the returned lines carry no terminators.
fn lines_custom(input: &[u8]) -> (r: Vec<Vec<u8>>)
    ensures
        r@.len() >= 1,
        r@.map_values(|v: Vec<u8>| v@) == spec_split_lines(input@, 0),
{
    let ghost s = input@;
    let mut out: Vec<Vec<u8>> = Vec::new();
    let mut cur: Vec<u8> = Vec::new();
    let mut i: usize = 0;
    let ghost mut line_start: int = 0;
    proof {
        assert(out@.map_values(|v: Vec<u8>| v@) =~= Seq::<Seq<u8>>::empty());
    }
    while i < input.len()
        invariant
            input@ == s,
            0 <= line_start <= i <= s.len(),
            cur@ == s.subrange(line_start, i as int),
            forall|j: int| line_start <= j < i ==> !spec_is_line_break(#[trigger] s[j]),
            spec_split_lines(s, 0) == out@.map_values(|v: Vec<u8>| v@) + spec_split_lines(
                s,
                line_start,
            ),
        decreases input@.len() - i,
    {
        let b = input[i];
        if b == 13 || b == 10 {
            proof {
                lemma_line_break_end_at(s, line_start, i as int);
                lemma_line_break_end_bounds(s, spec_next_line_start(s, i as int));
            }
            let ghost out_views = out@.map_values(|v: Vec<u8>| v@);
            let ghost curv = cur@;
            out.push(cur);
            cur = Vec::new();
            proof {
                assert(out@.map_values(|v: Vec<u8>| v@) =~= out_views + seq![curv]);
            }
            if b == 13 && input.len() - i >= 2 && input[i + 1] == 10 {
                proof {
                    line_start = i + 2;
                }
                i = i + 2;
            } else {
                proof {
                    line_start = i + 1;
                }
                i = i + 1;
            }
            proof {
                assert(cur@ =~= s.subrange(line_start, i as int));
                assert(spec_split_lines(s, 0) =~= out@.map_values(|v: Vec<u8>| v@)
                    + spec_split_lines(s, line_start));
            }
        } else {
            cur.push(b);
            i = i + 1;
            proof {
                assert(cur@ =~= s.subrange(line_start, i as int));
            }
        }
    }
    proof {
        lemma_line_break_end_at(s, line_start, s.len() as int);
        assert(spec_split_lines(s, line_start) =~= seq![s.subrange(line_start, s.len() as int)]);
    }
    let ghost out_views = out@.map_values(|v: Vec<u8>| v@);
    let ghost curv = cur@;
    out.push(cur);
    proof {
        assert(out@.map_values(|v: Vec<u8>| v@) =~= out_views + seq![curv]);
        assert(out@.map_values(|v: Vec<u8>| v@) =~= spec_split_lines(s, 0));
    }
    out
}

fn starts_with(s: &[u8], prefix: &[u8]) -> (r: bool)
    ensures
        r == (prefix@.len() <= s@.len() && s@.take(prefix@.len() as int) == prefix@),
{
    if prefix.len() > s.len() {
        return false;
    }
    let mut i: usize = 0;
    while i < prefix.len()
        invariant
            i <= prefix@.len(),
            prefix@.len() <= s@.len(),
            forall|j: int| 0 <= j < i ==> s@[j] == prefix@[j],
        decreases prefix@.len() - i,
    {
        if s[i] != prefix[i] {
            proof {
                assert(s@.take(prefix@.len() as int)[i as int] != prefix@[i as int]);
            }
            return false;
        }
        i = i + 1;
    }
    proof {
        assert(s@.take(prefix@.len() as int) =~= prefix@);
    }
    true
}

/// The leading-whitespace length of a line, by the lexer's whitespace rule.
fn leading_ws_len(s: &[u8]) -> (r: usize)
    ensures
        r <= s@.len(),
        r as int == crate::lexer::spec_ws_end(s@, 0),
{
    let mut i: usize = 0;
    loop
        invariant
            i <= s@.len(),
            crate::lexer::spec_ws_end(s@, 0) == crate::lexer::spec_ws_end(s@, i as int),
        decreases s@.len() - i,
    {
        if s.len() - i >= 3 && s[i] == 0xe3 && s[i + 1] == 0x80 && s[i + 2] == 0x80 {
            i = i + 3;
        } else if i < s.len() && s[i] <= 0x20 {
            i = i + 1;
        } else {
            return i;
        }
    }
}

/// The start of the run of trailing quote bytes of `s`.
pub open spec fn spec_quote_start(s: Seq<u8>) -> int
    decreases s.len(),
{
    if s.len() > 0 && s.last() == 39 {
        spec_quote_start(s.drop_last())
    } else {
        s.len() as int
    }
}

/// The literal qualifies for rewriting: its closing line is nothing but
/// whitespace followed by quotes.
pub open spec fn spec_multiline_gate(c: Seq<u8>) -> bool {
    let last = spec_split_lines(c, 0).last();
    crate::lexer::spec_ws_end(last, 0) == spec_quote_start(last)
}

/// The whitespace of the closing line, the base indentation the internal
/// lines must carry.
pub open spec fn spec_base_indentation(c: Seq<u8>) -> Seq<u8> {
    let last = spec_split_lines(c, 0).last();
    last.take(crate::lexer::spec_ws_end(last, 0))
}

/// What one internal line becomes: its base prefix replaced by the chosen
/// indentation (an all-whitespace line that is only a strict prefix of the
/// base becomes empty); `None` when the line matches neither way.
pub open spec fn spec_rewrite_line(
    line: Seq<u8>,
    base: Seq<u8>,
    nl: Seq<u8>,
    indu: Seq<u8>,
    contu: Seq<u8>,
    ind: nat,
    cont: nat,
) -> Option<Seq<u8>> {
    if base.len() <= line.len() && line.take(base.len() as int) == base {
        let stripped = line.skip(base.len() as int);
        if stripped.len() == 0 {
            Some(nl)
        } else {
            Some(nl + spec_repeat(indu, ind) + spec_repeat(contu, cont) + stripped)
        }
    } else if line.len() <= base.len() && base.take(line.len() as int) == line {
        Some(nl)
    } else {
        None
    }
}

/// The rewritten internal lines from `li` on, concatenated.
pub open spec fn spec_rewrite_lines(
    lines: Seq<Seq<u8>>,
    li: int,
    base: Seq<u8>,
    nl: Seq<u8>,
    indu: Seq<u8>,
    contu: Seq<u8>,
    ind: nat,
    cont: nat,
) -> Option<Seq<u8>>
    decreases lines.len() - li
        when li >= 0
{
    if li >= lines.len() {
        Some(Seq::empty())
    } else {
        match (
            spec_rewrite_line(lines[li], base, nl, indu, contu, ind, cont),
            spec_rewrite_lines(lines, li + 1, base, nl, indu, contu, ind, cont),
        ) {
            (Some(a), Some(b)) => Some(a + b),
            _ => None,
        }
    }
}

/// What a multiline literal's content becomes: its opening line, then each
/// internal line re-homed to the chosen indentation; `None` when an internal
/// line does not carry the base prefix.
pub open spec fn spec_try_rewrite(
    c: Seq<u8>,
    base: Seq<u8>,
    nl: Seq<u8>,
    indu: Seq<u8>,
    contu: Seq<u8>,
    ind: nat,
    cont: nat,
) -> Option<Seq<u8>> {
    let lines = spec_split_lines(c, 0);
    match spec_rewrite_lines(lines, 1, base, nl, indu, contu, ind, cont) {
        Some(rest) => Some(lines[0] + rest),
        None => None,
    }
}

/// What the multiline-string pass makes of one token's content, the token's
/// own formatting data choosing the indentation.
pub open spec fn spec_multiline_pass_content(
    tok: Token,
    data: FormattingData,
    in_line: bool,
    nl: Seq<u8>,
    indu: Seq<u8>,
    contu: Seq<u8>,
) -> Seq<u8> {
    let c = tok.spec_content();
    if in_line && tok.spec_type() == TokenType::TextLiteral(TextLiteralKind::MultiLine)
        && !data.spec_is_ignored() && spec_multiline_gate(c) {
        match spec_try_rewrite(
            c,
            spec_base_indentation(c),
            nl,
            indu,
            contu,
            data.indentations_before as nat,
            data.continuations_before as nat,
        ) {
            Some(v) => v,
            None => c,
        }
    } else {
        c
    }
}

/// Token index `i` occurs among the first `k` token slots of the line.
pub open spec fn spec_in_prefix(idxs: Seq<usize>, k: int, i: int) -> bool {
    exists|a: int| 0 <= a < k && (#[trigger] idxs[a]) as int == i
}

impl StringFormatter<'_> {
    /// Rebuilds a multiline string body around the chosen indentation,
    /// keeping the opening line (the quotes) as it stands: exactly
    /// `spec_try_rewrite`, with `None` when an internal line neither carries
    /// the trailing quote's indentation prefix nor is a strict prefix of it.
    fn try_rewrite_string(
        &self,
        original: &[u8],
        indentations_before: usize,
        continuations_before: usize,
        base_indentation: &[u8],
    ) -> (r: Option<Vec<u8>>)
        ensures
            ({
                let sr = spec_try_rewrite(
                    original@,
                    base_indentation@,
                    self.recon_settings.spec_newline(),
                    self.recon_settings.spec_indentation(),
                    self.recon_settings.spec_continuation(),
                    indentations_before as nat,
                    continuations_before as nat,
                );
                match r {
                    Some(v) => sr == Some(v@),
                    None => sr is None,
                }
            }),
    {
        let ghost nl = self.recon_settings.spec_newline();
        let ghost indu = self.recon_settings.spec_indentation();
        let ghost contu = self.recon_settings.spec_continuation();
        let ghost ind = indentations_before as nat;
        let ghost cont = continuations_before as nat;
        let ghost base = base_indentation@;
        let mut contents: Vec<u8> = Vec::new();
        let lines = lines_custom(original);
        let ghost linesv = lines@.map_values(|v: Vec<u8>| v@);
        let mut first = vstd::slice::slice_to_vec(lines[0].as_slice());
        contents.append(&mut first);
        proof {
            assert(linesv[0] == lines@[0]@);
            assert(contents@ =~= linesv[0]);
        }
        let mut li: usize = 1;
        while li < lines.len()
            invariant
                1 <= li <= linesv.len(),
                linesv == spec_split_lines(original@, 0),
                linesv == lines@.map_values(|v: Vec<u8>| v@),
                linesv.len() == lines@.len(),
                nl == self.recon_settings.spec_newline(),
                indu == self.recon_settings.spec_indentation(),
                contu == self.recon_settings.spec_continuation(),
                base == base_indentation@,
                ind == indentations_before as nat,
                cont == continuations_before as nat,
                spec_try_rewrite(original@, base, nl, indu, contu, ind, cont) == match
                    spec_rewrite_lines(linesv, li as int, base, nl, indu, contu, ind, cont) {
                    Some(rest) => Some(contents@ + rest),
                    None => None,
                },
            decreases lines@.len() - li,
        {
            let ghost pre0 = contents@;
            let line = &lines[li];
            proof {
                assert(linesv[li as int] == line@);
            }
            let mut nlv = vstd::slice::slice_to_vec(self.recon_settings.get_newline_str().as_slice());
            contents.append(&mut nlv);
            if !starts_with(line.as_slice(), base_indentation) {
                if starts_with(base_indentation, line.as_slice()) {
                    // an internal line may match only a prefix of the
                    // trailing quote's whitespace, as long as nothing follows
                    proof {
                        assert(spec_rewrite_line(linesv[li as int], base, nl, indu, contu, ind, cont)
                            == Some(nl));
                        assert(contents@ =~= pre0 + nl);
                        assert forall|rest: Seq<u8>| true implies (pre0 + (nl + rest)) =~= (contents@
                            + rest) by {}
                        lemma_rewrite_step(linesv, li as int, base, nl, indu, contu, ind, cont);
                    }
                    li = li + 1;
                    continue ;
                }
                proof {
                    assert(spec_rewrite_line(linesv[li as int], base, nl, indu, contu, ind, cont)
                        is None);
                    assert(spec_rewrite_lines(linesv, li as int, base, nl, indu, contu, ind, cont)
                        is None);
                }
                return None;
            }
            let stripped = vstd::slice::slice_subrange(
                line.as_slice(),
                base_indentation.len(),
                line.len(),
            );
            proof {
                assert(stripped@ =~= linesv[li as int].skip(base.len() as int));
            }
            if stripped.len() > 0 {
                let ghost pre1 = contents@;
                proof {
                    assert(pre1 == pre0 + nl);
                }
                let mut k: usize = 0;
                while k < indentations_before
                    invariant
                        k <= indentations_before,
                        indu == self.recon_settings.spec_indentation(),
                        contents@ == pre1 + spec_repeat(indu, k as nat),
                    decreases indentations_before - k,
                {
                    let ghost pre2 = contents@;
                    let mut unit = vstd::slice::slice_to_vec(
                        self.recon_settings.get_indentation_str().as_slice(),
                    );
                    contents.append(&mut unit);
                    k = k + 1;
                    proof {
                        assert(contents@ =~= pre1 + (spec_repeat(indu, (k - 1) as nat) + indu));
                    }
                }
                let ghost pre3 = contents@;
                let mut k2: usize = 0;
                while k2 < continuations_before
                    invariant
                        k2 <= continuations_before,
                        contu == self.recon_settings.spec_continuation(),
                        contents@ == pre3 + spec_repeat(contu, k2 as nat),
                    decreases continuations_before - k2,
                {
                    let ghost pre4 = contents@;
                    let mut unit = vstd::slice::slice_to_vec(
                        self.recon_settings.get_continuation_str().as_slice(),
                    );
                    contents.append(&mut unit);
                    k2 = k2 + 1;
                    proof {
                        assert(contents@ =~= pre3 + (spec_repeat(contu, (k2 - 1) as nat) + contu));
                    }
                }
                let ghost pre5 = contents@;
                let mut tail = vstd::slice::slice_to_vec(stripped);
                contents.append(&mut tail);
                proof {
                    let strippedv = linesv[li as int].skip(base.len() as int);
                    assert(spec_rewrite_line(linesv[li as int], base, nl, indu, contu, ind, cont)
                        == Some(nl + spec_repeat(indu, ind) + spec_repeat(contu, cont) + strippedv));
                    assert(pre3 == (pre0 + nl) + spec_repeat(indu, ind));
                    assert(pre5 == pre3 + spec_repeat(contu, cont));
                    assert(contents@ == pre5 + strippedv);
                    assert(contents@ =~= pre0 + (nl + spec_repeat(indu, ind) + spec_repeat(
                        contu,
                        cont,
                    ) + strippedv));
                    lemma_rewrite_step(linesv, li as int, base, nl, indu, contu, ind, cont);
                }
            } else {
                proof {
                    assert(linesv[li as int].skip(base.len() as int).len() == 0);
                    assert(spec_rewrite_line(linesv[li as int], base, nl, indu, contu, ind, cont)
                        == Some(nl));
                    assert(contents@ =~= pre0 + nl);
                    lemma_rewrite_step(linesv, li as int, base, nl, indu, contu, ind, cont);
                }
            }
            li = li + 1;
        }
        proof {
            assert(spec_rewrite_lines(linesv, li as int, base, nl, indu, contu, ind, cont)
                == Some(Seq::<u8>::empty()));
            assert(contents@ + Seq::<u8>::empty() =~= contents@);
        }
        Some(contents)
    }

    /// Rewrites every multiline string literal of the logical line whose
    /// internal indentation matches its trailing quote, exactly as
    /// `spec_multiline_pass_content` says, and reports whether any token's
    /// content changed. Every other token, every frozen token, and every
    /// token's type, whitespace and formatting data are unchanged.
    pub fn format_multiline_strings(
        &self,
        line: &LogicalLine,
        tokens: &mut FormattedTokens<'_>,
    ) -> (changed: bool)
        requires
            old(tokens).wf(),
            forall|a: int, b: int|
                0 <= a < b < line.spec_tokens().len() ==> line.spec_tokens()[a]
                    < line.spec_tokens()[b],
        ensures
            final(tokens).wf(),
            final(tokens).spec_tokens().len() == old(tokens).spec_tokens().len(),
            forall|i: int|
                0 <= i < old(tokens).spec_tokens().len() ==> {
                    let o = old(tokens).spec_tokens()[i];
                    let nw = #[trigger] final(tokens).spec_tokens()[i];
                    &&& nw.1 == o.1
                    &&& nw.0.spec_type() == o.0.spec_type()
                    &&& nw.0.spec_ws() == o.0.spec_ws()
                    &&& nw.0.spec_content() == spec_multiline_pass_content(
                        o.0,
                        o.1,
                        line.spec_tokens().contains(i as usize),
                        self.recon_settings.spec_newline(),
                        self.recon_settings.spec_indentation(),
                        self.recon_settings.spec_continuation(),
                    )
                },
            changed == exists|i: int|
                0 <= i < old(tokens).spec_tokens().len()
                    && (#[trigger] final(tokens).spec_tokens()[i]).0.spec_content()
                    != old(tokens).spec_tokens()[i].0.spec_content(),
    {
        let ghost nl = self.recon_settings.spec_newline();
        let ghost indu = self.recon_settings.spec_indentation();
        let ghost contu = self.recon_settings.spec_continuation();
        let ghost orig = tokens.spec_tokens();
        let tn = tokens.len();
        let mut changed = false;
        let idxs = line.get_tokens();
        let n = idxs.len();
        let mut k: usize = 0;
        while k < n
            invariant
                k <= n,
                n == idxs@.len(),
                idxs@ == line.spec_tokens(),
                forall|a: int, b: int| 0 <= a < b < idxs@.len() ==> idxs@[a] < idxs@[b],
                nl == self.recon_settings.spec_newline(),
                indu == self.recon_settings.spec_indentation(),
                contu == self.recon_settings.spec_continuation(),
                tokens.wf(),
                tokens.spec_tokens().len() == orig.len(),
                orig.len() == tn as int,
                forall|i: int|
                    0 <= i < orig.len() && !spec_in_prefix(idxs@, k as int, i)
                        ==> #[trigger] tokens.spec_tokens()[i] == orig[i],
                forall|i: int|
                    0 <= i < orig.len() && spec_in_prefix(idxs@, k as int, i) ==> {
                        let o = orig[i];
                        let nw = #[trigger] tokens.spec_tokens()[i];
                        &&& nw.1 == o.1
                        &&& nw.0.spec_type() == o.0.spec_type()
                        &&& nw.0.spec_ws() == o.0.spec_ws()
                        &&& nw.0.spec_content() == spec_multiline_pass_content(
                            o.0,
                            o.1,
                            true,
                            nl,
                            indu,
                            contu,
                        )
                    },
                changed == exists|i: int|
                    0 <= i < orig.len() && (#[trigger] tokens.spec_tokens()[i]).0.spec_content()
                        != orig[i].0.spec_content(),
            decreases n - k,
        {
            let idx = idxs[k];
            let ghost pre_tokens = tokens.spec_tokens();
            let found = tokens.get_token_mut(idx);
            match found {
                Some(pair) => {
                    let ghost o = orig[idx as int];
                    proof {
                        assert(!spec_in_prefix(idxs@, k as int, idx as int));
                        assert(pre_tokens[idx as int] == orig[idx as int]);
                    }
                    let is_multiline = matches!(
                        pair.0.get_token_type(),
                        TokenType::TextLiteral(TextLiteralKind::MultiLine)
                    );
                    if is_multiline && !pair.1.is_ignored() {
                        let content = pair.0.get_content();
                        let lines = lines_custom(content);
                        let last_line = lines[lines.len() - 1].as_slice();
                        proof {
                            assert(lines@.map_values(|v: Vec<u8>| v@).last() == lines@[lines@.len()
                                - 1]@);
                        }
                        let ws = leading_ws_len(last_line);
                        // the last line must hold nothing but whitespace
                        // before its trailing quotes
                        let ghost lastv = last_line@;
                        proof {
                            assert(lastv.take(lastv.len() as int) =~= lastv);
                        }
                        let mut quote_end = last_line.len();
                        while quote_end > 0 && last_line[quote_end - 1] == 39
                            invariant
                                quote_end <= lastv.len(),
                                last_line@ == lastv,
                                spec_quote_start(lastv) == spec_quote_start(
                                    lastv.take(quote_end as int),
                                ),
                            decreases quote_end,
                        {
                            proof {
                                assert(lastv.take(quote_end as int).drop_last() =~= lastv.take(
                                    quote_end - 1,
                                ));
                            }
                            quote_end = quote_end - 1;
                        }
                        proof {
                            assert(lastv.take(lastv.len() as int) =~= lastv);
                            if quote_end > 0 {
                                assert(lastv.take(quote_end as int).last() == lastv[quote_end - 1]);
                            }
                            assert(spec_quote_start(lastv.take(quote_end as int)) == quote_end);
                        }
                        if ws == quote_end {
                            let base = vstd::slice::slice_subrange(last_line, 0, ws);
                            proof {
                                assert(spec_multiline_gate(o.0.spec_content()));
                                assert(base@ =~= spec_base_indentation(o.0.spec_content()));
                            }
                            let ind = pair.1.indentations_before;
                            let cont = pair.1.continuations_before;
                            let rewritten = self.try_rewrite_string(content, ind, cont, base);
                            match rewritten {
                                Some(new_contents) => {
                                    let same = crate::toggler::bytes_eq(
                                        pair.0.get_content(),
                                        &new_contents,
                                    );
                                    if !same {
                                        pair.0.set_content(new_contents);
                                        changed = true;
                                    }
                                },
                                None => {},
                            }
                        } else {
                            proof {
                                assert(!spec_multiline_gate(o.0.spec_content()));
                            }
                        }
                    }
                },
                None => {},
            }
            k = k + 1;
            proof {
                assert(forall|i: int|
                    0 <= i < orig.len() && i != idx as int ==> #[trigger] tokens.spec_tokens()[i]
                        == pre_tokens[i]);
                let ghost ii = idx as int;
                if ii < orig.len() && tokens.spec_tokens()[ii] == pre_tokens[ii] {
                    assert(tokens.spec_tokens() =~= pre_tokens);
                }
                assert forall|i: int|
                    0 <= i < orig.len() && spec_in_prefix(idxs@, k as int, i) && !spec_in_prefix(
                        idxs@,
                        k - 1,
                        i,
                    ) implies i == idx as int by {
                    let a = choose|a: int| 0 <= a < k && (#[trigger] idxs@[a]) as int == i;
                    assert(a == k - 1);
                }
                assert forall|i: int|
                    0 <= i < orig.len() && !spec_in_prefix(idxs@, k as int, i)
                        implies #[trigger] tokens.spec_tokens()[i] == orig[i] by {
                    assert(!spec_in_prefix(idxs@, k - 1, i));
                    assert(i != idx as int || idx as int >= orig.len());
                }
                if changed {
                } else {
                    assert forall|i: int|
                        0 <= i < orig.len() implies (#[trigger] tokens.spec_tokens()[i]).0.spec_content()
                        == orig[i].0.spec_content() by {
                        if i != idx as int {
                            assert(tokens.spec_tokens()[i] == pre_tokens[i]);
                        }
                    }
                }
            }
        }
        proof {
            assert forall|i: int| 0 <= i < orig.len() implies (spec_in_prefix(
                idxs@,
                n as int,
                i,
            ) == line.spec_tokens().contains(i as usize)) by {
                assert(i <= tn as int);
                if line.spec_tokens().contains(i as usize) {
                    let a = choose|a: int|
                        0 <= a < idxs@.len() && (#[trigger] idxs@[a]) == i as usize;
                    assert((idxs@[a]) as int == i);
                    assert(spec_in_prefix(idxs@, n as int, i));
                }
            }
        }
        changed
    }
}

/// Extending the rewritten prefix by one line keeps the running relation.
proof fn lemma_rewrite_step(
    lines: Seq<Seq<u8>>,
    li: int,
    base: Seq<u8>,
    nl: Seq<u8>,
    indu: Seq<u8>,
    contu: Seq<u8>,
    ind: nat,
    cont: nat,
)
    requires
        0 <= li < lines.len(),
        spec_rewrite_line(lines[li], base, nl, indu, contu, ind, cont) is Some,
    ensures
        ({
            let a = spec_rewrite_line(lines[li], base, nl, indu, contu, ind, cont).unwrap();
            match spec_rewrite_lines(lines, li + 1, base, nl, indu, contu, ind, cont) {
                Some(rest) => spec_rewrite_lines(lines, li, base, nl, indu, contu, ind, cont)
                    == Some(a + rest),
                None => spec_rewrite_lines(lines, li, base, nl, indu, contu, ind, cont) is None,
            }
        }),
{
}

} // verus!
