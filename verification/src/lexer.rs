use vstd::prelude::*;

use crate::keywords::{get_word_token_type, kw2, kw4, kw5, kw6, lower_bytes};
use crate::lang::{
    CaretKind, ChevronKind, CommentKind, ConditionalDirectiveKind, EqKind, KeywordKind,
    NumberLiteralKind, OperatorKind, TextLiteralKind, Token, TokenType,
};
use crate::search::{find_byte, find_byte2, find_byte3, find_subsequence};

verus! {

/// The byte-driven tokenizer for the Pascal lexical surface. Tokens carry
/// their leading whitespace, so the original byte layout is recoverable.
pub struct DelphiLexer {}

// Whitespace is any codepoint at or below U+0020 plus U+3000 (ideographic
// space); at the byte level the latter is the sequence E3 80 80.
/// The index where the whitespace run beginning at `i` ends.
pub open spec fn spec_ws_end(s: Seq<u8>, i: int) -> int
    decreases s.len() - i
        when 0 <= i <= s.len()
{
    if i + 3 <= s.len() && s[i] == 0xe3 && s[i + 1] == 0x80 && s[i + 2] == 0x80 {
        spec_ws_end(s, i + 3)
    } else if i < s.len() && s[i] <= 0x20 {
        spec_ws_end(s, i + 1)
    } else {
        i
    }
}

fn count_leading_whitespace(input: &[u8], pos: usize) -> (r: usize)
    requires
        pos <= input@.len(),
    ensures
        pos + r == spec_ws_end(input@, pos as int),
        pos + r <= input@.len(),
        pos + r < input@.len() ==> input@[pos + r] > 0x20,
{
    let mut i: usize = pos;
    loop
        invariant
            pos <= i <= input@.len(),
            spec_ws_end(input@, pos as int) == spec_ws_end(input@, i as int),
        decreases input@.len() - i,
    {
        if input.len() - i >= 3 && input[i] == 0xe3 && input[i + 1] == 0x80 && input[i + 2] == 0x80 {
            i = i + 3;
        } else if i < input.len() && input[i] <= 0x20 {
            i = i + 1;
        } else {
            return i - pos;
        }
    }
}

/// An identifier body byte: ASCII alphanumeric, underscore, or any non-ASCII
/// byte (every non-ASCII codepoint is an identifier codepoint, except U+3000).
pub open spec fn spec_is_ident_byte(b: u8) -> bool {
    (48 <= b && b <= 57) || (65 <= b && b <= 90) || (97 <= b && b <= 122) || b == 95 || b >= 0x80
}

/// The index where the identifier body beginning at `i` ends: identifier
/// bytes, stopping at an ideographic-space sequence.
pub open spec fn spec_ident_end(s: Seq<u8>, i: int) -> int
    decreases s.len() - i
        when 0 <= i <= s.len()
{
    if i + 3 <= s.len() && s[i] == 0xe3 && s[i + 1] == 0x80 && s[i + 2] == 0x80 {
        i
    } else if i < s.len() && spec_is_ident_byte(s[i]) {
        spec_ident_end(s, i + 1)
    } else {
        i
    }
}

/// A byte a whitespace run may hold: a blank, or a byte of the ideographic
/// space sequence.
pub open spec fn spec_is_blankish(b: u8) -> bool {
    b <= 0x20 || b == 0xe3 || b == 0x80
}

proof fn lemma_ws_run_blankish(s: Seq<u8>, i: int)
    requires
        0 <= i <= s.len(),
    ensures
        forall|j: int| i <= j < spec_ws_end(s, i) ==> spec_is_blankish(#[trigger] s[j]),
        i <= spec_ws_end(s, i) <= s.len(),
    decreases s.len() - i,
{
    if i + 3 <= s.len() && s[i] == 0xe3 && s[i + 1] == 0x80 && s[i + 2] == 0x80 {
        lemma_ws_run_blankish(s, i + 3);
    } else if i < s.len() && s[i] <= 0x20 {
        lemma_ws_run_blankish(s, i + 1);
    }
}

proof fn lemma_ident_end_bounds(s: Seq<u8>, i: int)
    requires
        0 <= i <= s.len(),
    ensures
        i <= spec_ident_end(s, i) <= s.len(),
    decreases s.len() - i,
{
    if !(i + 3 <= s.len() && s[i] == 0xe3 && s[i + 1] == 0x80 && s[i + 2] == 0x80) && i < s.len()
        && spec_is_ident_byte(s[i]) {
        lemma_ident_end_bounds(s, i + 1);
    }
}

fn find_identifier_end(input: &[u8], offset: usize) -> (r: usize)
    requires
        offset <= input@.len(),
    ensures
        r == spec_ident_end(input@, offset as int),
        offset <= r <= input@.len(),
{
    proof {
        lemma_ident_end_bounds(input@, offset as int);
    }
    let mut i: usize = offset;
    loop
        invariant
            offset <= i <= input@.len(),
            spec_ident_end(input@, offset as int) == spec_ident_end(input@, i as int),
        decreases input@.len() - i,
    {
        if input.len() - i >= 3 && input[i] == 0xe3 && input[i + 1] == 0x80 && input[i + 2] == 0x80 {
            return i;
        } else if i < input.len() && (input[i] == 95 || (48 <= input[i] && input[i] <= 57) || (65
            <= input[i] && input[i] <= 90) || (97 <= input[i] && input[i] <= 122) || input[i]
            >= 0x80) {
            i = i + 1;
        } else {
            return i;
        }
    }
}

/// A decimal-literal body byte: a digit or an underscore.
pub open spec fn spec_is_dec_byte(b: u8) -> bool {
    b == 95 || (48 <= b && b <= 57)
}

/// A hex-literal body byte: a hex digit or an underscore.
pub open spec fn spec_is_hex_byte(b: u8) -> bool {
    b == 95 || (48 <= b && b <= 57) || (65 <= b && b <= 70) || (97 <= b && b <= 102)
}

/// A binary-literal body byte: `0`, `1`, or an underscore.
pub open spec fn spec_is_bin_byte(b: u8) -> bool {
    b == 95 || b == 48 || b == 49
}

/// An ASCII letter.
pub open spec fn spec_is_alpha_byte(b: u8) -> bool {
    (65 <= b && b <= 90) || (97 <= b && b <= 122)
}

/// An assembly identifier byte: ASCII alphanumeric, underscore, or `@`.
pub open spec fn spec_is_asm_ident_byte(b: u8) -> bool {
    (48 <= b && b <= 57) || (65 <= b && b <= 90) || (97 <= b && b <= 122) || b == 95 || b == 64
}

/// The end of the run of bytes satisfying the classifier `c` from `i`, where
/// `c` selects one of the spec byte classes above.
pub open spec fn spec_run_end(s: Seq<u8>, i: int, c: int) -> int
    decreases s.len() - i
        when 0 <= i <= s.len()
{
    if i < s.len() && spec_byte_class(s[i], c) {
        spec_run_end(s, i + 1, c)
    } else {
        i
    }
}

/// Byte classifiers by index: 0 decimal, 1 hex, 2 binary, 3 ASCII letters,
/// 4 assembly identifier bytes, 5 ampersands; and, for specification only,
/// 6 bytes that end no line, 7 bytes other than `}`, 8 bytes other than a
/// quote, 9 UTF-8 continuation bytes.
pub open spec fn spec_byte_class(b: u8, c: int) -> bool {
    if c == 0 {
        spec_is_dec_byte(b)
    } else if c == 1 {
        spec_is_hex_byte(b)
    } else if c == 2 {
        spec_is_bin_byte(b)
    } else if c == 3 {
        spec_is_alpha_byte(b)
    } else if c == 4 {
        spec_is_asm_ident_byte(b)
    } else if c == 5 {
        b == 38
    } else if c == 6 {
        b != 10 && b != 13
    } else if c == 7 {
        b != 125
    } else if c == 8 {
        b != 39
    } else {
        0x80 <= b && b < 0xc0
    }
}

/// Pins a run's end: the first byte out of the class after a run inside it.
proof fn lemma_run_end_at(s: Seq<u8>, i: int, at: int, c: int)
    requires
        0 <= i <= at <= s.len(),
        forall|j: int| i <= j < at ==> spec_byte_class(#[trigger] s[j], c),
        at == s.len() || !spec_byte_class(s[at], c),
    ensures
        spec_run_end(s, i, c) == at,
    decreases at - i,
{
    if i < at {
        lemma_run_end_at(s, i + 1, at, c);
    }
}

proof fn lemma_run_end_bounds(s: Seq<u8>, i: int, c: int)
    requires
        0 <= i <= s.len(),
    ensures
        i <= spec_run_end(s, i, c) <= s.len(),
    decreases s.len() - i,
{
    if i < s.len() && spec_byte_class(s[i], c) {
        lemma_run_end_bounds(s, i + 1, c);
    }
}

fn byte_in_class(b: u8, c: usize) -> (r: bool)
    requires
        c <= 5,
    ensures
        r == spec_byte_class(b, c as int),
{
    if c == 0 {
        b == 95 || (48 <= b && b <= 57)
    } else if c == 1 {
        b == 95 || (48 <= b && b <= 57) || (65 <= b && b <= 70) || (97 <= b && b <= 102)
    } else if c == 2 {
        b == 95 || b == 48 || b == 49
    } else if c == 3 {
        (65 <= b && b <= 90) || (97 <= b && b <= 122)
    } else if c == 4 {
        (48 <= b && b <= 57) || (65 <= b && b <= 90) || (97 <= b && b <= 122) || b == 95 || b == 64
    } else {
        b == 38
    }
}

fn count_run(input: &[u8], offset: usize, c: usize) -> (r: usize)
    requires
        offset <= input@.len(),
        c <= 5,
    ensures
        offset + r == spec_run_end(input@, offset as int, c as int),
        offset + r <= input@.len(),
{
    proof {
        lemma_run_end_bounds(input@, offset as int, c as int);
    }
    let mut i: usize = offset;
    while i < input.len() && byte_in_class(input[i], c)
        invariant
            offset <= i <= input@.len(),
            c <= 5,
            spec_run_end(input@, offset as int, c as int) == spec_run_end(input@, i as int, c as int),
        decreases input@.len() - i,
    {
        i = i + 1;
    }
    i - offset
}

fn count_decimal(input: &[u8], offset: usize) -> (r: usize)
    requires
        offset <= input@.len(),
    ensures
        offset + r == spec_run_end(input@, offset as int, 0),
        offset + r <= input@.len(),
{
    count_run(input, offset, 0)
}

fn count_hex(input: &[u8], offset: usize) -> (r: usize)
    requires
        offset <= input@.len(),
    ensures
        offset + r == spec_run_end(input@, offset as int, 1),
        offset + r <= input@.len(),
{
    count_run(input, offset, 1)
}

fn count_binary(input: &[u8], offset: usize) -> (r: usize)
    requires
        offset <= input@.len(),
    ensures
        offset + r == spec_run_end(input@, offset as int, 2),
        offset + r <= input@.len(),
{
    count_run(input, offset, 2)
}

// The remaining functions lex one token each. `offset` is the position just
// past the byte that selected the sub-lexer; the returned position is the
// exclusive end of the token, which always reaches at least `offset`.

fn unknown(offset: usize) -> (r: (usize, TokenType))
    ensures
        r == (offset, TokenType::Unknown),
{
    (offset, TokenType::Unknown)
}

fn identifier(input: &[u8], offset: usize) -> (r: (usize, TokenType))
    requires
        offset <= input@.len(),
    ensures
        offset <= r.0 <= input@.len(),
        r.0 == spec_ident_end(input@, offset as int),
        r.1 == TokenType::Identifier,
{
    (find_identifier_end(input, offset), TokenType::Identifier)
}

fn lex_unicode(input: &[u8], offset: usize) -> (r: (usize, TokenType))
    requires
        offset <= input@.len(),
    ensures
        offset <= r.0 <= input@.len(),
        r.0 == spec_ident_end(input@, spec_run_end(input@, offset as int, 9)),
        r.1 == TokenType::Identifier,
{
    // Step over UTF-8 continuation bytes so the identifier scan starts on a
    // codepoint boundary.
    let mut o: usize = offset;
    while o < input.len() && 0x80 <= input[o] && input[o] < 0xc0
        invariant
            offset <= o <= input@.len(),
            spec_run_end(input@, offset as int, 9) == spec_run_end(input@, o as int, 9),
        decreases input@.len() - o,
    {
        o = o + 1;
    }
    proof {
        lemma_ident_end_bounds(input@, o as int);
    }
    identifier(input, o)
}

fn identifier_or_keyword(input: &[u8], offset: usize) -> (r: (usize, TokenType))
    requires
        1 <= offset <= input@.len(),
    ensures
        offset <= r.0 <= input@.len(),
        r.0 == spec_ident_end(input@, offset as int),
        r.1 == crate::keywords::spec_word_token_type(
            input@.subrange(offset - 1, spec_ident_end(input@, offset as int)),
        ),
        r.1 is Keyword || r.1 is IdentifierOrKeyword || r.1 is Identifier,
{
    let end = find_identifier_end(input, offset);
    let word = vstd::slice::slice_subrange(input, offset - 1, end);
    (end, get_word_token_type(word))
}

fn escaped_identifier(input: &[u8], offset: usize) -> (r: (usize, TokenType))
    requires
        offset <= input@.len(),
    ensures
        offset <= r.0 <= input@.len(),
        r.0 == spec_ident_end(input@, spec_run_end(input@, offset as int, 5)),
        r.1 == TokenType::Identifier,
{
    // pin the slice length as a usize so the offset sums below stay in bounds
    let _n = input.len();
    let c = count_run(input, offset, 5);
    let o = offset + c;
    proof {
        lemma_ident_end_bounds(input@, o as int);
    }
    identifier(input, o)
}

fn asm_label(input: &[u8], offset: usize) -> (r: (usize, TokenType))
    requires
        offset <= input@.len(),
    ensures
        offset <= r.0 <= input@.len(),
        r.0 == spec_run_end(input@, offset as int, 4),
        r.1 == TokenType::Identifier,
{
    let _n = input.len();
    let c = count_run(input, offset, 4);
    (offset + c, TokenType::Identifier)
}

fn asm_identifier(input: &[u8], offset: usize) -> (r: (usize, TokenType))
    requires
        1 <= offset <= input@.len(),
    ensures
        offset <= r.0 <= input@.len(),
        r.0 == spec_ident_end(input@, offset as int),
        r.1 == TokenType::Keyword(KeywordKind::End) || r.1 == TokenType::Identifier,
        (r.1 == TokenType::Keyword(KeywordKind::End)) == (crate::keywords::spec_lower_bytes(
            input@.subrange(offset - 1, spec_ident_end(input@, offset as int)),
        ) =~= seq![101u8, 110u8, 100u8]),
{
    let end = find_identifier_end(input, offset);
    let word = vstd::slice::slice_subrange(input, offset - 1, end);
    let lw = lower_bytes(word);
    if crate::keywords::kw3(lw.as_slice(), 101, 110, 100) {
        (end, TokenType::Keyword(KeywordKind::End))
    } else {
        (end, TokenType::Identifier)
    }
}

/// An ASCII digit (an underscore may continue a digit run but not open one).
pub open spec fn spec_is_digit(b: u8) -> bool {
    48 <= b && b <= 57
}

/// The exclusive end of a decimal literal from `i`: its digit run, then a
/// fraction and an exponent — the `.`, and the `e` with its optional sign,
/// join the literal only when a digit (not an underscore) follows them.
pub open spec fn spec_dec_literal_end(s: Seq<u8>, i: int) -> int {
    let o2 = spec_dec_literal_end_frac(s, i);
    if o2 < s.len() && (s[o2] == 101 || s[o2] == 69) {
        let u = if o2 + 1 < s.len() && (s[o2 + 1] == 43 || s[o2 + 1] == 45) {
            o2 + 2
        } else {
            o2 + 1
        };
        if u < s.len() && spec_is_digit(s[u]) {
            spec_run_end(s, u, 0)
        } else {
            o2
        }
    } else {
        o2
    }
}

fn dec_number_literal(input: &[u8], offset: usize) -> (r: (usize, TokenType))
    requires
        offset <= input@.len(),
    ensures
        offset <= r.0 <= input@.len(),
        r.0 == spec_dec_literal_end(input@, offset as int),
        r.1 == TokenType::NumberLiteral(NumberLiteralKind::Decimal),
{
    let _n = input.len();
    let c = count_decimal(input, offset);
    let mut o = offset + c;
    if input.len() - o >= 2 && input[o] == 46 && 48 <= input[o + 1] && input[o + 1] <= 57 {
        let c2 = count_decimal(input, o + 1);
        o = o + 1 + c2;
    }
    if o < input.len() && (input[o] == 101 || input[o] == 69) {
        let mut u = o + 1;
        if u < input.len() && (input[u] == 43 || input[u] == 45) {
            u = u + 1;
        }
        if u < input.len() && 48 <= input[u] && input[u] <= 57 {
            let c3 = count_decimal(input, u);
            o = u + c3;
        }
    }
    (o, TokenType::NumberLiteral(NumberLiteralKind::Decimal))
}

fn hex_number_literal(input: &[u8], offset: usize) -> (r: (usize, TokenType))
    requires
        offset <= input@.len(),
    ensures
        offset <= r.0 <= input@.len(),
        r.0 == spec_run_end(input@, offset as int, 1),
        r.1 == TokenType::NumberLiteral(NumberLiteralKind::Hex),
{
    let _n = input.len();
    let c = count_hex(input, offset);
    (offset + c, TokenType::NumberLiteral(NumberLiteralKind::Hex))
}

fn binary_number_literal(input: &[u8], offset: usize) -> (r: (usize, TokenType))
    requires
        offset <= input@.len(),
    ensures
        offset <= r.0 <= input@.len(),
        r.0 == spec_run_end(input@, offset as int, 2),
        r.1 == TokenType::NumberLiteral(NumberLiteralKind::Binary),
{
    let _n = input.len();
    let c = count_binary(input, offset);
    (offset + c, TokenType::NumberLiteral(NumberLiteralKind::Binary))
}

fn asm_number_literal(input: &[u8], offset: usize) -> (r: (usize, TokenType))
    requires
        1 <= offset <= input@.len(),
    ensures
        offset <= r.0 <= input@.len(),
        ({
            let o = spec_run_end(input@, offset as int, 1);
            if o < input@.len() && (input@[o] == 79 || input@[o] == 111) {
                r.0 == o + 1 && r.1 == TokenType::NumberLiteral(NumberLiteralKind::Octal)
            } else if o < input@.len() && (input@[o] == 72 || input@[o] == 104) {
                r.0 == o + 1 && r.1 == TokenType::NumberLiteral(NumberLiteralKind::Hex)
            } else if input@[o - 1] == 66 || input@[o - 1] == 98 {
                r.0 == o && r.1 == TokenType::NumberLiteral(NumberLiteralKind::Binary)
            } else {
                r.0 == o && r.1 == TokenType::NumberLiteral(NumberLiteralKind::Decimal)
            }
        }),
{
    // All hex body bytes are consumed first; the base is then read off the
    // suffix: H for hex, O for octal, a trailing B for binary, else decimal.
    let _n = input.len();
    let ch = count_hex(input, offset);
    let o = offset + ch;
    if o < input.len() && (input[o] == 79 || input[o] == 111) {
        (o + 1, TokenType::NumberLiteral(NumberLiteralKind::Octal))
    } else if o < input.len() && (input[o] == 72 || input[o] == 104) {
        (o + 1, TokenType::NumberLiteral(NumberLiteralKind::Hex))
    } else if input[o - 1] == 66 || input[o - 1] == 98 {
        (o, TokenType::NumberLiteral(NumberLiteralKind::Binary))
    } else {
        (o, TokenType::NumberLiteral(NumberLiteralKind::Decimal))
    }
}

fn ampersand_number_literal_or_ident(input: &[u8], offset: usize) -> (r: (usize, TokenType))
    requires
        offset <= input@.len(),
    ensures
        offset <= r.0 <= input@.len(),
        r.1 != TokenType::Eof,
        r.0 as int == spec_ampersand(input@, offset as int).0,
        r.1 == spec_ampersand(input@, offset as int).1,
{
    if offset >= input.len() {
        return unknown(offset);
    }
    let b = input[offset];
    if b == 36 {
        hex_number_literal(input, offset + 1)
    } else if b == 37 {
        binary_number_literal(input, offset + 1)
    } else if 48 <= b && b <= 57 {
        dec_number_literal(input, offset + 1)
    } else if (65 <= b && b <= 90) || (97 <= b && b <= 122) || b == 95 {
        identifier(input, offset + 1)
    } else if b == 38 {
        escaped_identifier(input, offset + 1)
    } else {
        unknown(offset)
    }
}


/// The first quote, line feed or carriage return at or past `i`.
pub open spec fn spec_quote_scan(s: Seq<u8>, i: int) -> int
    decreases s.len() - i
        when 0 <= i <= s.len()
{
    if i < s.len() && s[i] != 39 && s[i] != 10 && s[i] != 13 {
        spec_quote_scan(s, i + 1)
    } else {
        i
    }
}

proof fn lemma_quote_scan_bounds(s: Seq<u8>, i: int)
    requires
        0 <= i <= s.len(),
    ensures
        i <= spec_quote_scan(s, i) <= s.len(),
    decreases s.len() - i,
{
    if i < s.len() && s[i] != 39 && s[i] != 10 && s[i] != 13 {
        lemma_quote_scan_bounds(s, i + 1);
    }
}

proof fn lemma_quote_scan_at(s: Seq<u8>, i: int, at: int)
    requires
        0 <= i <= at <= s.len(),
        forall|j: int| i <= j < at ==> s[j] != 39 && s[j] != 10 && s[j] != 13,
        at == s.len() || s[at] == 39 || s[at] == 10 || s[at] == 13,
    ensures
        spec_quote_scan(s, i) == at,
    decreases at - i,
{
    if i < at {
        lemma_quote_scan_at(s, i + 1, at);
    }
}

/// Where a run of `#` character escapes starting at `i` ends, and whether it
/// ended cleanly: a `#` must be followed by a digit run, `$` and a hex run,
/// or `%` and a binary run, else the literal is unterminated there.
pub open spec fn spec_escapes_end(s: Seq<u8>, i: int) -> (int, bool)
    decreases s.len() - i
        when 0 <= i <= s.len()
        via spec_escapes_end_decreases
{
    if i >= s.len() || s[i] != 35 {
        (i, true)
    } else {
        let j = i + 1;
        if j >= s.len() {
            (j, false)
        } else if s[j] == 36 {
            let c = spec_run_end(s, j + 1, 1);
            if c == j + 1 {
                (j + 1, false)
            } else {
                spec_escapes_end(s, c)
            }
        } else if s[j] == 37 {
            let c = spec_run_end(s, j + 1, 2);
            if c == j + 1 {
                (j + 1, false)
            } else {
                spec_escapes_end(s, c)
            }
        } else if spec_is_dec_byte(s[j]) {
            spec_escapes_end(s, spec_run_end(s, j + 1, 0))
        } else {
            (j, false)
        }
    }
}

#[via_fn]
proof fn spec_escapes_end_decreases(s: Seq<u8>, i: int) {
    if i < s.len() && s[i] == 35 && i + 1 < s.len() {
        lemma_run_end_bounds(s, i + 2, 0);
        lemma_run_end_bounds(s, i + 2, 1);
        lemma_run_end_bounds(s, i + 2, 2);
    }
}

proof fn lemma_escapes_end_bounds(s: Seq<u8>, i: int)
    requires
        0 <= i <= s.len(),
    ensures
        i <= spec_escapes_end(s, i).0 <= s.len(),
    decreases s.len() - i,
{
    if i < s.len() && s[i] == 35 {
        let j = i + 1;
        if j < s.len() {
            if s[j] == 36 {
                lemma_run_end_bounds(s, j + 1, 1);
                let c = spec_run_end(s, j + 1, 1);
                if c != j + 1 {
                    lemma_escapes_end_bounds(s, c);
                }
            } else if s[j] == 37 {
                lemma_run_end_bounds(s, j + 1, 2);
                let c = spec_run_end(s, j + 1, 2);
                if c != j + 1 {
                    lemma_escapes_end_bounds(s, c);
                }
            } else if spec_is_dec_byte(s[j]) {
                lemma_run_end_bounds(s, j + 1, 0);
                lemma_escapes_end_bounds(s, spec_run_end(s, j + 1, 0));
            }
        }
    }
}

/// Where one quoted part starting at `i` ends, with its outcome: 1 when no
/// part opens here (or a lone quote ends the input), 0 when the part closed
/// with a quote and scanning continues, 2 when a newline or the end of the
/// input left it unterminated.
pub open spec fn spec_pascal_end(s: Seq<u8>, i: int) -> (int, int) {
    if i >= s.len() || s[i] != 39 {
        (i, 1)
    } else {
        let o = i + 1;
        if o >= s.len() {
            (o, 1)
        } else {
            let q = spec_quote_scan(s, o);
            if q < s.len() && s[q] == 39 {
                (q + 1, 0)
            } else if q < s.len() {
                (q, 2)
            } else {
                (s.len() as int, 2)
            }
        }
    }
}

proof fn lemma_pascal_end_bounds(s: Seq<u8>, i: int)
    requires
        0 <= i <= s.len(),
    ensures
        i <= spec_pascal_end(s, i).0 <= s.len(),
        spec_pascal_end(s, i).1 == 0 ==> spec_pascal_end(s, i).0 >= i + 2,
{
    if i < s.len() && s[i] == 39 && i + 1 < s.len() {
        lemma_quote_scan_bounds(s, i + 1);
    }
}

/// The exclusive end of a single-line text literal from `start` (the `'` or
/// `#` byte), and whether it is unterminated: an alternation of character
/// escapes and quoted parts, ended by the first part that neither closes nor
/// continues.
pub open spec fn spec_text_end(s: Seq<u8>, start: int) -> (int, bool)
    decreases s.len() - start
        when 0 <= start <= s.len()
        via spec_text_end_decreases
{
    let e = spec_escapes_end(s, start);
    if !e.1 {
        (e.0, true)
    } else {
        let p = spec_pascal_end(s, e.0);
        if p.1 == 1 {
            (p.0, false)
        } else if p.1 == 2 {
            (p.0, true)
        } else {
            spec_text_end(s, p.0)
        }
    }
}

#[via_fn]
proof fn spec_text_end_decreases(s: Seq<u8>, start: int) {
    lemma_escapes_end_bounds(s, start);
    lemma_pascal_end_bounds(s, spec_escapes_end(s, start).0);
}

/// The first position at or past `i` where three quotes stand in a row, or
/// the input's length when none does.
pub open spec fn spec_first_triple_quote(s: Seq<u8>, i: int) -> int
    decreases s.len() - i
        when 0 <= i <= s.len()
{
    if i + 3 > s.len() {
        s.len() as int
    } else if s[i] == 39 && s[i + 1] == 39 && s[i + 2] == 39 {
        i
    } else {
        spec_first_triple_quote(s, i + 1)
    }
}

proof fn lemma_first_triple_quote_at(s: Seq<u8>, i: int, at: int)
    requires
        0 <= i <= at,
        at + 3 <= s.len(),
        s[at] == 39 && s[at + 1] == 39 && s[at + 2] == 39,
        forall|j: int| i <= j < at ==> !((#[trigger] s[j]) == 39 && s[j + 1] == 39 && s[j + 2] == 39),
    ensures
        spec_first_triple_quote(s, i) == at,
    decreases at - i,
{
    if i < at {
        lemma_first_triple_quote_at(s, i + 1, at);
    }
}

proof fn lemma_first_triple_quote_none(s: Seq<u8>, i: int)
    requires
        0 <= i <= s.len(),
        forall|j: int| i <= j && j + 3 <= s.len() ==> !((#[trigger] s[j]) == 39 && s[j + 1] == 39 && s[j + 2] == 39),
    ensures
        spec_first_triple_quote(s, i) == s.len(),
    decreases s.len() - i,
{
    if i + 3 <= s.len() {
        lemma_first_triple_quote_none(s, i + 1);
    }
}

// Result states of the text-literal helpers.
enum ScanState {
    ScanContinue,
    ScanStop,
    ScanUnterminated,
}

fn consume_pascal_str(input: &[u8], offset: usize) -> (r: (usize, ScanState))
    requires
        offset <= input@.len(),
    ensures
        offset <= r.0 <= input@.len(),
        r.1 is ScanContinue ==> r.0 >= offset + 2,
        r.0 as int == spec_pascal_end(input@, offset as int).0,
        (r.1 is ScanContinue) == (spec_pascal_end(input@, offset as int).1 == 0),
        (r.1 is ScanStop) == (spec_pascal_end(input@, offset as int).1 == 1),
        (r.1 is ScanUnterminated) == (spec_pascal_end(input@, offset as int).1 == 2),
{
    if offset >= input.len() || input[offset] != 39 {
        return (offset, ScanState::ScanStop);
    }
    let o = offset + 1;
    if o >= input.len() {
        return (o, ScanState::ScanStop);
    }
    let rest = vstd::slice::slice_subrange(input, o, input.len());
    match find_byte3(rest, 39, 10, 13) {
        Some(p) => {
            let q = o + p;
            proof {
                assert forall|j: int| o <= j < q implies input@[j] != 39 && input@[j] != 10
                    && input@[j] != 13 by {
                    assert(rest@[j - o] == input@[j]);
                }
                assert(rest@[p as int] == input@[q as int]);
                lemma_quote_scan_at(input@, o as int, q as int);
            }
            if input[q] == 39 {
                (q + 1, ScanState::ScanContinue)
            } else {
                (q, ScanState::ScanUnterminated)
            }
        },
        None => {
            proof {
                assert forall|j: int| o <= j < input@.len() implies input@[j] != 39 && input@[j]
                    != 10 && input@[j] != 13 by {
                    assert(rest@[j - o] == input@[j]);
                }
                lemma_quote_scan_at(input@, o as int, input@.len() as int);
            }
            (input.len(), ScanState::ScanUnterminated)
        },
    }
}

fn consume_escaped_chars(input: &[u8], offset: usize) -> (r: (usize, ScanState))
    requires
        offset <= input@.len(),
    ensures
        offset <= r.0 <= input@.len(),
        !(r.1 is ScanStop),
        r.0 as int == spec_escapes_end(input@, offset as int).0,
        (r.1 is ScanContinue) == spec_escapes_end(input@, offset as int).1,
{
    let mut o: usize = offset;
    loop
        invariant
            offset <= o <= input@.len(),
            spec_escapes_end(input@, offset as int) == spec_escapes_end(input@, o as int),
        decreases input@.len() - o,
    {
        if o >= input.len() || input[o] != 35 {
            return (o, ScanState::ScanContinue);
        }
        o = o + 1;
        if o >= input.len() {
            return (o, ScanState::ScanUnterminated);
        }
        let b = input[o];
        if b == 36 {
            o = o + 1;
            let c = count_hex(input, o);
            if c == 0 {
                return (o, ScanState::ScanUnterminated);
            }
            o = o + c;
        } else if b == 37 {
            o = o + 1;
            let c = count_binary(input, o);
            if c == 0 {
                return (o, ScanState::ScanUnterminated);
            }
            o = o + c;
        } else if (48 <= b && b <= 57) || b == 95 {
            o = o + 1;
            o = o + count_decimal(input, o);
        } else {
            return (o, ScanState::ScanUnterminated);
        }
    }
}

/// Whether a text literal starting at `start` opens a multiline string:
/// three quotes in a row.
pub open spec fn spec_is_multiline_opener(s: Seq<u8>, start: int) -> bool {
    0 <= start && start + 3 <= s.len() && s[start] == 39 && s[start + 1] == 39 && s[start + 2]
        == 39
}

fn text_literal(input: &[u8], offset: usize) -> (r: (usize, TokenType))
    requires
        1 <= offset <= input@.len(),
    ensures
        offset <= r.0 <= input@.len(),
        r.1 is TextLiteral,
        spec_is_multiline_opener(input@, offset - 1) ==> ({
            let t = spec_first_triple_quote(input@, offset + 2);
            if t + 3 <= input@.len() {
                r.0 == t + 3 && r.1 == TokenType::TextLiteral(TextLiteralKind::MultiLine)
            } else {
                r.0 == input@.len() && r.1 == TokenType::TextLiteral(TextLiteralKind::Unterminated)
            }
        }),
        !spec_is_multiline_opener(input@, offset - 1) ==> ({
            let e = spec_text_end(input@, offset - 1);
            &&& r.0 as int == (if e.0 < offset { offset as int } else { e.0 })
            &&& r.1 == TokenType::TextLiteral(
                if e.1 {
                    TextLiteralKind::Unterminated
                } else {
                    TextLiteralKind::SingleLine
                },
            )
        }),
{
    let start = offset - 1;
    // A literal opened by three quotes is a multiline string: it runs to the
    // next three-quote sequence, and keeps its internal line structure.
    if input[start] == 39 && input.len() - start >= 3 && input[start + 1] == 39 && input[start + 2]
        == 39 {
        let rest = vstd::slice::slice_subrange(input, start + 3, input.len());
        let needle: Vec<u8> = vec![39u8, 39u8, 39u8];
        proof {
            assert(needle@ =~= seq![39u8, 39u8, 39u8]);
        }
        return match find_subsequence(rest, needle.as_slice()) {
            Some(p) => {
                let at = start + 3 + p;
                proof {
                    assert(rest@.subrange(p as int, p + 3) == needle@);
                    assert(input@[at as int] == rest@[p as int]);
                    assert(input@[at + 1] == rest@[p + 1]);
                    assert(input@[at + 2] == rest@[p + 2]);
                    assert forall|j: int|
                        start + 3 <= j < at implies !((#[trigger] input@[j]) == 39 && input@[j + 1]
                        == 39 && input@[j + 2] == 39) by {
                        if j + 3 <= input@.len() {
                            assert(rest@.subrange(j - (start + 3), j - (start + 3) + 3)
                                != needle@);
                            assert(rest@.subrange(j - (start + 3), j - (start + 3) + 3)
                                =~= input@.subrange(j, j + 3));
                            if input@[j] == 39 && input@[j + 1] == 39 && input@[j + 2] == 39 {
                                assert(input@.subrange(j, j + 3) =~= needle@);
                            }
                        }
                    }
                    lemma_first_triple_quote_at(input@, start + 3, at as int);
                }
                (at + 3, TokenType::TextLiteral(TextLiteralKind::MultiLine))
            },
            None => {
                proof {
                    assert forall|j: int|
                        start + 3 <= j && j + 3 <= input@.len() implies !((#[trigger] input@[j])
                        == 39 && input@[j + 1] == 39 && input@[j + 2] == 39) by {
                        assert(rest@.subrange(j - (start + 3), j - (start + 3) + 3) != needle@);
                        assert(rest@.subrange(j - (start + 3), j - (start + 3) + 3)
                            =~= input@.subrange(j, j + 3));
                        if input@[j] == 39 && input@[j + 1] == 39 && input@[j + 2] == 39 {
                            assert(input@.subrange(j, j + 3) =~= needle@);
                        }
                    }
                    lemma_first_triple_quote_none(input@, start + 3);
                }
                (input.len(), TokenType::TextLiteral(TextLiteralKind::Unterminated))
            },
        };
    }
    let mut o: usize = start;
    loop
        invariant
            1 <= offset <= input@.len(),
            offset - 1 == start,
            start <= o <= input@.len(),
            !spec_is_multiline_opener(input@, start as int),
            spec_text_end(input@, start as int) == spec_text_end(input@, o as int),
        decreases input@.len() - o,
    {
        let (o1, st1) = consume_escaped_chars(input, o);
        match st1 {
            ScanState::ScanUnterminated => {
                return (
                    if o1 < offset {
                        offset
                    } else {
                        o1
                    },
                    TokenType::TextLiteral(TextLiteralKind::Unterminated),
                );
            },
            _ => {},
        }
        let (o2, st2) = consume_pascal_str(input, o1);
        match st2 {
            ScanState::ScanStop => {
                return (
                    if o2 < offset {
                        offset
                    } else {
                        o2
                    },
                    TokenType::TextLiteral(TextLiteralKind::SingleLine),
                );
            },
            ScanState::ScanUnterminated => {
                return (
                    if o2 < offset {
                        offset
                    } else {
                        o2
                    },
                    TokenType::TextLiteral(TextLiteralKind::Unterminated),
                );
            },
            ScanState::ScanContinue => {
                o = o2;
            },
        }
    }
}

/// The end of a double-quoted assembly literal from `i` (after the opening
/// quote), and whether it closed: a backslash escapes the byte after it; a
/// line break or the end of the input leaves it unterminated.
pub open spec fn spec_asm_text_end(s: Seq<u8>, i: int) -> (int, bool)
    decreases s.len() - i
        when 0 <= i <= s.len()
{
    if i >= s.len() {
        (i, false)
    } else if s[i] == 34 {
        (i + 1, true)
    } else if s[i] == 10 || s[i] == 13 {
        (i, false)
    } else if s[i] == 92 {
        if s.len() - i >= 2 {
            spec_asm_text_end(s, i + 2)
        } else {
            (s.len() as int, false)
        }
    } else {
        spec_asm_text_end(s, i + 1)
    }
}

fn asm_text_literal(input: &[u8], offset: usize) -> (r: (usize, TokenType))
    requires
        offset <= input@.len(),
    ensures
        offset <= r.0 <= input@.len(),
        r.0 as int == spec_asm_text_end(input@, offset as int).0,
        r.1 == TokenType::TextLiteral(
            if spec_asm_text_end(input@, offset as int).1 {
                TextLiteralKind::SingleLine
            } else {
                TextLiteralKind::Unterminated
            },
        ),
{
    let mut o: usize = offset;
    loop
        invariant
            offset <= o <= input@.len(),
            spec_asm_text_end(input@, offset as int) == spec_asm_text_end(input@, o as int),
        decreases input@.len() - o,
    {
        if o >= input.len() {
            return (o, TokenType::TextLiteral(TextLiteralKind::Unterminated));
        }
        let b = input[o];
        if b == 34 {
            return (o + 1, TokenType::TextLiteral(TextLiteralKind::SingleLine));
        }
        if b == 10 || b == 13 {
            return (o, TokenType::TextLiteral(TextLiteralKind::Unterminated));
        }
        if b == 92 {
            // A backslash escapes whatever byte follows it.
            if input.len() - o >= 2 {
                o = o + 2;
            } else {
                o = input.len();
            }
        } else {
            o = o + 1;
        }
    }
}

/// Where the run of trailing whitespace of `s` begins: blanks and whole
/// ideographic-space sequences are stripped from the end.
pub open spec fn spec_trailing_ws_start(s: Seq<u8>) -> int
    decreases s.len(),
{
    if s.len() >= 3 && s[s.len() - 3] == 0xe3 && s[s.len() - 2] == 0x80 && s[s.len() - 1] == 0x80 {
        spec_trailing_ws_start(s.take(s.len() - 3))
    } else if s.len() >= 1 && s.last() <= 0x20 {
        spec_trailing_ws_start(s.drop_last())
    } else {
        s.len() as int
    }
}

proof fn lemma_trailing_ws_bounds(s: Seq<u8>)
    ensures
        0 <= spec_trailing_ws_start(s) <= s.len(),
        forall|j: int|
            spec_trailing_ws_start(s) <= j < s.len() ==> spec_is_blankish(#[trigger] s[j]),
    decreases s.len(),
{
    if s.len() >= 3 && s[s.len() - 3] == 0xe3 && s[s.len() - 2] == 0x80 && s[s.len() - 1] == 0x80 {
        lemma_trailing_ws_bounds(s.take(s.len() - 3));
        assert forall|j: int|
            spec_trailing_ws_start(s) <= j < s.len() implies spec_is_blankish(
            #[trigger] s[j],
        ) by {
            if j < s.len() - 3 {
                assert(s.take(s.len() - 3)[j] == s[j]);
                assert(spec_is_blankish(s.take(s.len() - 3)[j]));
            }
        }
    } else if s.len() >= 1 && s.last() <= 0x20 {
        lemma_trailing_ws_bounds(s.drop_last());
        assert forall|j: int|
            spec_trailing_ws_start(s) <= j < s.len() implies spec_is_blankish(
            #[trigger] s[j],
        ) by {
            if j < s.len() - 1 {
                assert(s.drop_last()[j] == s[j]);
                assert(spec_is_blankish(s.drop_last()[j]));
            }
        }
    }
}

/// The start of the run of trailing whitespace-like bytes of `s`.
fn trailing_ws_start(input: &[u8]) -> (r: usize)
    ensures
        r as int == spec_trailing_ws_start(input@),
        r <= input@.len(),
        forall|j: int|
            r <= j < input@.len() ==> input@[j] <= 0x20 || input@[j] == 0xe3 || input@[j] == 0x80,
{
    proof {
        lemma_trailing_ws_bounds(input@);
        assert(input@.take(input@.len() as int) =~= input@);
    }
    let mut i: usize = input.len();
    loop
        invariant
            i <= input@.len(),
            spec_trailing_ws_start(input@) == spec_trailing_ws_start(input@.take(i as int)),
            forall|j: int|
                i <= j < input@.len() ==> input@[j] <= 0x20 || input@[j] == 0xe3 || input@[j]
                    == 0x80,
        decreases i,
    {
        proof {
            if i >= 3 {
                assert(input@.take(i as int).take(i - 3) =~= input@.take(i - 3));
            }
            if i >= 1 {
                assert(input@.take(i as int).drop_last() =~= input@.take(i - 1));
                assert(input@.take(i as int).last() == input@[i - 1]);
            }
        }
        if i >= 3 && input[i - 3] == 0xe3 && input[i - 2] == 0x80 && input[i - 1] == 0x80 {
            i = i - 3;
        } else if i >= 1 && input[i - 1] <= 0x20 {
            i = i - 1;
        } else {
            return i;
        }
    }
}

/// An unterminated comment or directive consumes to the end of the input,
/// leaving the trailing whitespace run for the final token.
fn consume_to_eof(input: &[u8], tok_start: usize, token_type: TokenType) -> (r: (usize, TokenType))
    requires
        tok_start < input@.len(),
        input@[tok_start as int] > 0x20,
        input@[tok_start as int] != 0xe3,
        input@[tok_start as int] != 0x80,
    ensures
        tok_start < r.0 <= input@.len(),
        r.0 as int == spec_trailing_ws_start(input@),
        r.1 == token_type,
{
    let t = trailing_ws_start(input);
    proof {
        // the token's opening byte is not whitespace, so the trailing run
        // begins after it
        if t <= tok_start {
            assert(spec_is_blankish(input@[tok_start as int]));
        }
    }
    (t, token_type)
}

/// The conditional-directive kind a directive's keyword selects, or
/// `CompilerDirective` for every other keyword.
pub open spec fn spec_directive_type(word: Seq<u8>) -> TokenType {
    let l = crate::keywords::spec_lower_bytes(word);
    if l =~= seq![105u8, 102u8] {
        TokenType::ConditionalDirective(ConditionalDirectiveKind::If)
    } else if l =~= seq![105u8, 102u8, 100u8, 101u8, 102u8] {
        TokenType::ConditionalDirective(ConditionalDirectiveKind::Ifdef)
    } else if l =~= seq![105u8, 102u8, 110u8, 100u8, 101u8, 102u8] {
        TokenType::ConditionalDirective(ConditionalDirectiveKind::Ifndef)
    } else if l =~= seq![105u8, 102u8, 111u8, 112u8, 116u8] {
        TokenType::ConditionalDirective(ConditionalDirectiveKind::Ifopt)
    } else if l =~= seq![101u8, 108u8, 115u8, 101u8, 105u8, 102u8] {
        TokenType::ConditionalDirective(ConditionalDirectiveKind::Elseif)
    } else if l =~= seq![101u8, 108u8, 115u8, 101u8] {
        TokenType::ConditionalDirective(ConditionalDirectiveKind::Else)
    } else if l =~= seq![105u8, 102u8, 101u8, 110u8, 100u8] {
        TokenType::ConditionalDirective(ConditionalDirectiveKind::Ifend)
    } else if l =~= seq![101u8, 110u8, 100u8, 105u8, 102u8] {
        TokenType::ConditionalDirective(ConditionalDirectiveKind::Endif)
    } else {
        TokenType::CompilerDirective
    }
}

fn compiler_directive_type(input: &[u8], offset: usize) -> (r: TokenType)
    requires
        offset <= input@.len(),
    ensures
        r == spec_directive_type(
            input@.subrange(offset as int, spec_run_end(input@, offset as int, 3)),
        ),
        r is ConditionalDirective || r == TokenType::CompilerDirective,
{
    let _n = input.len();
    let count = count_run(input, offset, 3);
    let word = vstd::slice::slice_subrange(input, offset, offset + count);
    let lw = lower_bytes(word);
    let l = lw.as_slice();
    if kw2(l, 105, 102) {
        TokenType::ConditionalDirective(ConditionalDirectiveKind::If)
    } else if kw5(l, 105, 102, 100, 101, 102) {
        TokenType::ConditionalDirective(ConditionalDirectiveKind::Ifdef)
    } else if kw6(l, 105, 102, 110, 100, 101, 102) {
        TokenType::ConditionalDirective(ConditionalDirectiveKind::Ifndef)
    } else if kw5(l, 105, 102, 111, 112, 116) {
        TokenType::ConditionalDirective(ConditionalDirectiveKind::Ifopt)
    } else if kw6(l, 101, 108, 115, 101, 105, 102) {
        TokenType::ConditionalDirective(ConditionalDirectiveKind::Elseif)
    } else if kw4(l, 101, 108, 115, 101) {
        TokenType::ConditionalDirective(ConditionalDirectiveKind::Else)
    } else if kw5(l, 105, 102, 101, 110, 100) {
        TokenType::ConditionalDirective(ConditionalDirectiveKind::Ifend)
    } else if kw5(l, 101, 110, 100, 105, 102) {
        TokenType::ConditionalDirective(ConditionalDirectiveKind::Endif)
    } else {
        TokenType::CompilerDirective
    }
}



/// The first position at or past `i` where `*)` stands, or the input's length
/// when it nowhere does.
pub open spec fn spec_star_paren_scan(s: Seq<u8>, i: int) -> int
    decreases s.len() - i
        when 0 <= i <= s.len()
{
    if i + 2 > s.len() {
        s.len() as int
    } else if s[i] == 42 && s[i + 1] == 41 {
        i
    } else {
        spec_star_paren_scan(s, i + 1)
    }
}

proof fn lemma_star_paren_at(s: Seq<u8>, i: int, at: int)
    requires
        0 <= i <= at,
        at + 2 <= s.len(),
        s[at] == 42 && s[at + 1] == 41,
        forall|j: int| i <= j < at ==> !((#[trigger] s[j]) == 42 && s[j + 1] == 41),
    ensures
        spec_star_paren_scan(s, i) == at,
    decreases at - i,
{
    if i < at {
        lemma_star_paren_at(s, i + 1, at);
    }
}

proof fn lemma_star_paren_none(s: Seq<u8>, i: int)
    requires
        0 <= i <= s.len(),
        forall|j: int| i <= j && j + 2 <= s.len() ==> !((#[trigger] s[j]) == 42 && s[j + 1] == 41),
    ensures
        spec_star_paren_scan(s, i) == s.len(),
    decreases s.len() - i,
{
    if i + 2 <= s.len() {
        lemma_star_paren_none(s, i + 1);
    }
}

/// Where a directive's closing delimiter ends (`}`, or `*)` for the
/// paren-star form), skipping single-quoted spans; `None` when the directive
/// or a quoted span in it is unterminated.
pub open spec fn spec_directive_end(s: Seq<u8>, i: int, paren_star: bool) -> Option<int>
    decreases s.len() - i
        when 0 <= i <= s.len()
        via spec_directive_end_decreases
{
    if i >= s.len() {
        None
    } else if s[i] == 39 {
        let q = spec_run_end(s, i + 1, 8);
        if q < s.len() {
            spec_directive_end(s, q + 1, paren_star)
        } else {
            None
        }
    } else if !paren_star && s[i] == 125 {
        Some(i + 1)
    } else if paren_star && s[i] == 42 && i + 1 < s.len() && s[i + 1] == 41 {
        Some(i + 2)
    } else {
        spec_directive_end(s, i + 1, paren_star)
    }
}

#[via_fn]
proof fn spec_directive_end_decreases(s: Seq<u8>, i: int, paren_star: bool) {
    if i < s.len() && s[i] == 39 {
        lemma_run_end_bounds(s, i + 1, 8);
    }
}

/// Finds the end of a directive body: the position just past the closing
/// delimiter (`}` when `paren_star` is false, `*)` when it is true), skipping
/// any single-quoted span, whose contents a directive may hold. `None` when
/// the directive (or a quoted span in it) is unterminated.
fn find_directive_end(input: &[u8], offset: usize, paren_star: bool) -> (r: Option<usize>)
    requires
        offset <= input@.len(),
    ensures
        r matches Some(e) ==> offset < e <= input@.len(),
        match r {
            Some(e) => spec_directive_end(input@, offset as int, paren_star) == Some(e as int),
            None => spec_directive_end(input@, offset as int, paren_star) is None,
        },
{
    let mut i: usize = offset;
    loop
        invariant
            offset <= i <= input@.len(),
            spec_directive_end(input@, offset as int, paren_star) == spec_directive_end(
                input@,
                i as int,
                paren_star,
            ),
        decreases input@.len() - i,
    {
        if i >= input.len() {
            return None;
        }
        let b = input[i];
        if b == 39 {
            let rest = vstd::slice::slice_subrange(input, i + 1, input.len());
            match find_byte(rest, 39) {
                Some(p) => {
                    proof {
                        assert forall|j: int| i + 1 <= j < i + 1 + p implies spec_byte_class(
                            #[trigger] input@[j],
                            8,
                        ) by {
                            assert(rest@[j - (i + 1)] == input@[j]);
                        }
                        assert(rest@[p as int] == input@[i + 1 + p]);
                        lemma_run_end_at(input@, i + 1, i + 1 + p, 8);
                    }
                    i = i + 1 + p + 1;
                },
                None => {
                    proof {
                        assert forall|j: int| i + 1 <= j < input@.len() implies spec_byte_class(
                            #[trigger] input@[j],
                            8,
                        ) by {
                            assert(rest@[j - (i + 1)] == input@[j]);
                        }
                        lemma_run_end_at(input@, i + 1, input@.len() as int, 8);
                    }
                    return None;
                },
            }
        } else if !paren_star && b == 125 {
            return Some(i + 1);
        } else if paren_star && b == 42 && input.len() - i >= 2 && input[i + 1] == 41 {
            return Some(i + 2);
        } else {
            i = i + 1;
        }
    }
}

fn compiler_directive(input: &[u8], tok_start: usize, offset: usize) -> (r: (usize, TokenType))
    requires
        tok_start + 2 == offset,
        offset <= input@.len(),
        input@[tok_start as int] == 123,
    ensures
        tok_start < r.0 <= input@.len(),
        r.1 == spec_directive_type(
            input@.subrange(offset as int, spec_run_end(input@, offset as int, 3)),
        ),
        r.0 as int == match spec_directive_end(input@, offset as int, false) {
            Some(e) => e,
            None => spec_trailing_ws_start(input@),
        },
{
    let token_type = compiler_directive_type(input, offset);
    match find_directive_end(input, offset, false) {
        Some(e) => (e, token_type),
        None => consume_to_eof(input, tok_start, token_type),
    }
}

fn compiler_directive_alt(input: &[u8], tok_start: usize, offset: usize) -> (r: (usize, TokenType))
    requires
        tok_start + 3 == offset,
        offset <= input@.len(),
        input@[tok_start as int] == 40,
    ensures
        tok_start < r.0 <= input@.len(),
        r.1 == spec_directive_type(
            input@.subrange(offset as int, spec_run_end(input@, offset as int, 3)),
        ),
        r.0 as int == match spec_directive_end(input@, offset as int, true) {
            Some(e) => e,
            None => spec_trailing_ws_start(input@),
        },
{
    let token_type = compiler_directive_type(input, offset);
    match find_directive_end(input, offset, true) {
        Some(e) => (e, token_type),
        None => consume_to_eof(input, tok_start, token_type),
    }
}

/// The first line-feed position in `[lo, hi)`, or the whole input's length
/// when the range holds none.
pub open spec fn spec_first_lf(s: Seq<u8>, lo: int, hi: int) -> int
    decreases hi - lo
        when lo >= 0
{
    if lo >= hi {
        s.len() as int
    } else if s[lo] == 10 {
        lo
    } else {
        spec_first_lf(s, lo + 1, hi)
    }
}

/// The comment-kind rule applied to the first line feed found between the
/// token's whitespace start and the comment's end.
pub open spec fn spec_block_comment_kind(
    s: Seq<u8>,
    ws_start: int,
    start_offset: int,
    end_offset: int,
    is_first: bool,
) -> CommentKind {
    let nl = spec_first_lf(s, ws_start, end_offset);
    if start_offset <= nl < end_offset {
        CommentKind::MultilineBlock
    } else if nl < start_offset || is_first {
        CommentKind::IndividualBlock
    } else {
        CommentKind::InlineBlock
    }
}

/// Classifies a terminated block comment: multiline when a newline lies
/// inside it, individual when a newline precedes it in its own whitespace (or
/// it opens the file), inline otherwise.
fn block_comment_kind(
    input: &[u8],
    ws_start: usize,
    start_offset: usize,
    end_offset: usize,
    is_first: bool,
) -> (r: CommentKind)
    requires
        ws_start <= start_offset <= end_offset <= input@.len(),
    ensures
        r == spec_block_comment_kind(
            input@,
            ws_start as int,
            start_offset as int,
            end_offset as int,
            is_first,
        ),
{
    let scan = vstd::slice::slice_subrange(input, ws_start, end_offset);
    let nl = match find_byte(scan, 10) {
        Some(p) => {
            proof {
                assert forall|j: int| ws_start <= j < ws_start + p implies input@[j] != 10 by {
                    assert(scan@[j - ws_start] == input@[j]);
                }
                assert(scan@[p as int] == input@[ws_start + p]);
                lemma_first_lf_at(input@, ws_start as int, end_offset as int, ws_start + p);
            }
            ws_start + p
        },
        None => {
            proof {
                assert forall|j: int| ws_start <= j < end_offset implies input@[j] != 10 by {
                    assert(scan@[j - ws_start] == input@[j]);
                }
                lemma_first_lf_none(input@, ws_start as int, end_offset as int);
            }
            input.len()
        },
    };
    if nl >= start_offset && nl < end_offset {
        CommentKind::MultilineBlock
    } else if nl < start_offset || is_first {
        CommentKind::IndividualBlock
    } else {
        CommentKind::InlineBlock
    }
}

/// Pins the first line feed of a range.
proof fn lemma_first_lf_at(s: Seq<u8>, lo: int, hi: int, at: int)
    requires
        0 <= lo <= at < hi <= s.len(),
        s[at] == 10,
        forall|j: int| lo <= j < at ==> s[j] != 10,
    ensures
        spec_first_lf(s, lo, hi) == at,
    decreases at - lo,
{
    if lo < at {
        lemma_first_lf_at(s, lo + 1, hi, at);
    }
}

proof fn lemma_first_lf_none(s: Seq<u8>, lo: int, hi: int)
    requires
        0 <= lo <= hi <= s.len(),
        forall|j: int| lo <= j < hi ==> s[j] != 10,
    ensures
        spec_first_lf(s, lo, hi) == s.len(),
    decreases hi - lo,
{
    if lo < hi {
        lemma_first_lf_none(s, lo + 1, hi);
    }
}

fn block_comment(input: &[u8], ws_start: usize, tok_start: usize, offset: usize, is_first: bool) -> (r:
    (usize, TokenType))
    requires
        ws_start <= tok_start,
        tok_start + 1 == offset,
        offset <= input@.len(),
        input@[tok_start as int] == 123,
    ensures
        tok_start < r.0 <= input@.len(),
        ({
            let close = spec_run_end(input@, offset as int, 7);
            if close < input@.len() {
                r.0 == close + 1 && r.1 == TokenType::Comment(
                    spec_block_comment_kind(
                        input@,
                        ws_start as int,
                        offset as int,
                        close + 1,
                        is_first,
                    ),
                )
            } else {
                r.0 as int == spec_trailing_ws_start(input@) && r.1 == TokenType::Comment(
                    CommentKind::MultilineBlock,
                )
            }
        }),
{
    let rest = vstd::slice::slice_subrange(input, offset, input.len());
    match find_byte(rest, 125) {
        Some(p) => {
            proof {
                assert forall|j: int| offset <= j < offset + p implies spec_byte_class(
                    #[trigger] input@[j],
                    7,
                ) by {
                    assert(rest@[j - offset] == input@[j]);
                }
                assert(rest@[p as int] == input@[offset + p]);
                lemma_run_end_at(input@, offset as int, offset + p, 7);
            }
            let end = offset + p + 1;
            (end, TokenType::Comment(block_comment_kind(input, ws_start, offset, end, is_first)))
        },
        None => {
            proof {
                assert forall|j: int| offset <= j < input@.len() implies spec_byte_class(
                    #[trigger] input@[j],
                    7,
                ) by {
                    assert(rest@[j - offset] == input@[j]);
                }
                lemma_run_end_at(input@, offset as int, input@.len() as int, 7);
            }
            consume_to_eof(input, tok_start, TokenType::Comment(CommentKind::MultilineBlock))
        },
    }
}

fn block_comment_alt(input: &[u8], ws_start: usize, tok_start: usize, offset: usize, is_first: bool) -> (r:
    (usize, TokenType))
    requires
        ws_start <= tok_start,
        tok_start + 2 == offset,
        offset <= input@.len(),
        input@[tok_start as int] == 40,
    ensures
        tok_start < r.0 <= input@.len(),
        ({
            let close = spec_star_paren_scan(input@, tok_start + 1);
            if close + 2 <= input@.len() {
                r.0 == close + 2 && r.1 == TokenType::Comment(
                    spec_block_comment_kind(
                        input@,
                        ws_start as int,
                        offset as int,
                        close + 2,
                        is_first,
                    ),
                )
            } else {
                r.0 as int == spec_trailing_ws_start(input@) && r.1 == TokenType::Comment(
                    CommentKind::MultilineBlock,
                )
            }
        }),
{
    let rest = vstd::slice::slice_subrange(input, tok_start + 1, input.len());
    let needle: Vec<u8> = vec![42u8, 41u8];
    proof {
        assert(needle@ =~= seq![42u8, 41u8]);
    }
    match find_subsequence(rest, needle.as_slice()) {
        Some(p) => {
            let at = tok_start + 1 + p;
            proof {
                assert(rest@.subrange(p as int, p + 2) == needle@);
                assert(input@[at as int] == rest@[p as int]);
                assert(input@[at + 1] == rest@[p + 1]);
                assert forall|j: int|
                    tok_start + 1 <= j < at implies !((#[trigger] input@[j]) == 42 && input@[j + 1]
                    == 41) by {
                    if j + 2 <= input@.len() {
                        assert(rest@.subrange(j - (tok_start + 1), j - (tok_start + 1) + 2)
                            != needle@);
                        assert(rest@.subrange(j - (tok_start + 1), j - (tok_start + 1) + 2)
                            =~= input@.subrange(j, j + 2));
                        if input@[j] == 42 && input@[j + 1] == 41 {
                            assert(input@.subrange(j, j + 2) =~= needle@);
                        }
                    }
                }
                lemma_star_paren_at(input@, tok_start + 1, at as int);
            }
            let end = at + 2;
            (end, TokenType::Comment(block_comment_kind(input, ws_start, offset, end, is_first)))
        },
        None => {
            proof {
                assert forall|j: int|
                    tok_start + 1 <= j && j + 2 <= input@.len() implies !((#[trigger] input@[j])
                    == 42 && input@[j + 1] == 41) by {
                    assert(rest@.subrange(j - (tok_start + 1), j - (tok_start + 1) + 2) != needle@);
                    assert(rest@.subrange(j - (tok_start + 1), j - (tok_start + 1) + 2)
                        =~= input@.subrange(j, j + 2));
                    if input@[j] == 42 && input@[j + 1] == 41 {
                        assert(input@.subrange(j, j + 2) =~= needle@);
                    }
                }
                lemma_star_paren_none(input@, tok_start + 1);
            }
            consume_to_eof(input, tok_start, TokenType::Comment(CommentKind::MultilineBlock))
        },
    }
}

fn line_comment(input: &[u8], ws_start: usize, tok_start: usize, offset: usize, is_first: bool) -> (r:
    (usize, TokenType))
    requires
        ws_start <= tok_start < offset <= input@.len(),
    ensures
        tok_start < r.0 <= input@.len(),
        r.0 == spec_run_end(input@, offset as int, 6),
        r.1 == TokenType::Comment(
            if is_first || spec_first_lf(input@, ws_start as int, tok_start as int)
                < tok_start as int {
                CommentKind::IndividualLine
            } else {
                CommentKind::InlineLine
            },
        ),
{
    let ws = vstd::slice::slice_subrange(input, ws_start, tok_start);
    let has_lf = match find_byte(ws, 10) {
        Some(p) => {
            proof {
                assert forall|j: int| ws_start <= j < ws_start + p implies input@[j] != 10 by {
                    assert(ws@[j - ws_start] == input@[j]);
                }
                assert(ws@[p as int] == input@[ws_start + p]);
                lemma_first_lf_at(input@, ws_start as int, tok_start as int, ws_start + p);
            }
            true
        },
        None => {
            proof {
                assert forall|j: int| ws_start <= j < tok_start implies input@[j] != 10 by {
                    assert(ws@[j - ws_start] == input@[j]);
                }
                lemma_first_lf_none(input@, ws_start as int, tok_start as int);
            }
            false
        },
    };
    let kind = if is_first || has_lf {
        CommentKind::IndividualLine
    } else {
        CommentKind::InlineLine
    };
    let rest = vstd::slice::slice_subrange(input, offset, input.len());
    let end = match find_byte2(rest, 10, 13) {
        Some(p) => {
            proof {
                assert forall|j: int| offset <= j < offset + p implies spec_byte_class(
                    #[trigger] input@[j],
                    6,
                ) by {
                    assert(rest@[j - offset] == input@[j]);
                }
                assert(rest@[p as int] == input@[offset + p]);
                lemma_run_end_at(input@, offset as int, offset + p, 6);
            }
            offset + p
        },
        None => {
            proof {
                assert forall|j: int| offset <= j < input@.len() implies spec_byte_class(
                    #[trigger] input@[j],
                    6,
                ) by {
                    assert(rest@[j - offset] == input@[j]);
                }
                lemma_run_end_at(input@, offset as int, input@.len() as int, 6);
            }
            input.len()
        },
    };
    (end, TokenType::Comment(kind))
}

fn compiler_directive_or_comment(
    input: &[u8],
    ws_start: usize,
    tok_start: usize,
    offset: usize,
    is_first: bool,
) -> (r: (usize, TokenType))
    requires
        ws_start <= tok_start,
        tok_start + 1 == offset,
        offset <= input@.len(),
        input@[tok_start as int] == 123,
    ensures
        tok_start < r.0 <= input@.len(),
        r.0 as int == spec_dir_or_comment(
            input@,
            ws_start as int,
            tok_start as int,
            offset as int,
            is_first,
            false,
        ).0,
        r.1 == spec_dir_or_comment(
            input@,
            ws_start as int,
            tok_start as int,
            offset as int,
            is_first,
            false,
        ).1,
{
    if offset < input.len() && input[offset] == 36 {
        compiler_directive(input, tok_start, offset + 1)
    } else {
        block_comment(input, ws_start, tok_start, offset, is_first)
    }
}

fn compiler_directive_or_comment_alt(
    input: &[u8],
    ws_start: usize,
    tok_start: usize,
    offset: usize,
    is_first: bool,
) -> (r: (usize, TokenType))
    requires
        ws_start <= tok_start,
        tok_start + 2 == offset,
        offset <= input@.len(),
        input@[tok_start as int] == 40,
    ensures
        tok_start < r.0 <= input@.len(),
        r.0 as int == spec_dir_or_comment(
            input@,
            ws_start as int,
            tok_start as int,
            offset as int,
            is_first,
            true,
        ).0,
        r.1 == spec_dir_or_comment(
            input@,
            ws_start as int,
            tok_start as int,
            offset as int,
            is_first,
            true,
        ).1,
{
    if offset < input.len() && input[offset] == 36 {
        compiler_directive_alt(input, tok_start, offset + 1)
    } else {
        block_comment_alt(input, ws_start, tok_start, offset, is_first)
    }
}

fn l_paren(input: &[u8], ws_start: usize, tok_start: usize, offset: usize, is_first: bool) -> (r: (
    usize,
    TokenType,
))
    requires
        ws_start <= tok_start,
        tok_start + 1 == offset,
        offset <= input@.len(),
        input@[tok_start as int] == 40,
    ensures
        tok_start < r.0 <= input@.len(),
        r.1 != TokenType::Eof,
        r.0 as int == spec_l_paren(
            input@,
            ws_start as int,
            tok_start as int,
            offset as int,
            is_first,
        ).0,
        r.1 == spec_l_paren(input@, ws_start as int, tok_start as int, offset as int, is_first).1,
{
    if offset < input.len() && input[offset] == 42 {
        compiler_directive_or_comment_alt(input, ws_start, tok_start, offset + 1, is_first)
    } else if offset < input.len() && input[offset] == 46 {
        (offset + 1, TokenType::Op(OperatorKind::LBrack))
    } else {
        (offset, TokenType::Op(OperatorKind::LParen))
    }
}

fn slash(input: &[u8], ws_start: usize, tok_start: usize, offset: usize, is_first: bool) -> (r: (
    usize,
    TokenType,
))
    requires
        ws_start <= tok_start < offset <= input@.len(),
    ensures
        tok_start < r.0 <= input@.len(),
        r.1 != TokenType::Eof,
        r.0 as int == spec_slash(
            input@,
            ws_start as int,
            tok_start as int,
            offset as int,
            is_first,
        ).0,
        r.1 == spec_slash(input@, ws_start as int, tok_start as int, offset as int, is_first).1,
{
    if offset < input.len() && input[offset] == 47 {
        line_comment(input, ws_start, tok_start, offset + 1, is_first)
    } else {
        (offset, TokenType::Op(OperatorKind::Slash))
    }
}


// The exact results of the small operator sub-lexers, as (end, type) pairs.
pub open spec fn spec_colon(s: Seq<u8>, offset: int) -> (int, TokenType) {
    if offset < s.len() && s[offset] == 61 {
        (offset + 1, TokenType::Op(OperatorKind::Assign))
    } else {
        (offset, TokenType::Op(OperatorKind::Colon))
    }
}

pub open spec fn spec_l_angle(s: Seq<u8>, offset: int) -> (int, TokenType) {
    if offset < s.len() && s[offset] == 61 {
        (offset + 1, TokenType::Op(OperatorKind::LessEqual))
    } else if offset < s.len() && s[offset] == 62 {
        (offset + 1, TokenType::Op(OperatorKind::NotEqual))
    } else {
        (offset, TokenType::Op(OperatorKind::LessThan(ChevronKind::Comp)))
    }
}

pub open spec fn spec_r_angle(s: Seq<u8>, offset: int) -> (int, TokenType) {
    if offset < s.len() && s[offset] == 61 {
        (offset + 1, TokenType::Op(OperatorKind::GreaterEqual))
    } else {
        (offset, TokenType::Op(OperatorKind::GreaterThan(ChevronKind::Comp)))
    }
}

pub open spec fn spec_dot(s: Seq<u8>, offset: int) -> (int, TokenType) {
    if offset < s.len() && s[offset] == 46 {
        (offset + 1, TokenType::Op(OperatorKind::DotDot))
    } else if offset < s.len() && s[offset] == 41 {
        (offset + 1, TokenType::Op(OperatorKind::RBrack))
    } else {
        (offset, TokenType::Op(OperatorKind::Dot))
    }
}

fn colon(input: &[u8], offset: usize) -> (r: (usize, TokenType))
    requires
        offset <= input@.len(),
    ensures
        offset <= r.0 <= input@.len(),
        r.0 as int == spec_colon(input@, offset as int).0 && r.1 == spec_colon(
            input@,
            offset as int,
        ).1,
{
    if offset < input.len() && input[offset] == 61 {
        (offset + 1, TokenType::Op(OperatorKind::Assign))
    } else {
        (offset, TokenType::Op(OperatorKind::Colon))
    }
}

fn l_angle(input: &[u8], offset: usize) -> (r: (usize, TokenType))
    requires
        offset <= input@.len(),
    ensures
        offset <= r.0 <= input@.len(),
        r.0 as int == spec_l_angle(input@, offset as int).0 && r.1 == spec_l_angle(
            input@,
            offset as int,
        ).1,
{
    if offset < input.len() && input[offset] == 61 {
        (offset + 1, TokenType::Op(OperatorKind::LessEqual))
    } else if offset < input.len() && input[offset] == 62 {
        (offset + 1, TokenType::Op(OperatorKind::NotEqual))
    } else {
        (offset, TokenType::Op(OperatorKind::LessThan(ChevronKind::Comp)))
    }
}

fn r_angle(input: &[u8], offset: usize) -> (r: (usize, TokenType))
    requires
        offset <= input@.len(),
    ensures
        offset <= r.0 <= input@.len(),
        r.0 as int == spec_r_angle(input@, offset as int).0 && r.1 == spec_r_angle(
            input@,
            offset as int,
        ).1,
{
    if offset < input.len() && input[offset] == 61 {
        (offset + 1, TokenType::Op(OperatorKind::GreaterEqual))
    } else {
        (offset, TokenType::Op(OperatorKind::GreaterThan(ChevronKind::Comp)))
    }
}

fn dot(input: &[u8], offset: usize) -> (r: (usize, TokenType))
    requires
        offset <= input@.len(),
    ensures
        offset <= r.0 <= input@.len(),
        r.0 as int == spec_dot(input@, offset as int).0 && r.1 == spec_dot(
            input@,
            offset as int,
        ).1,
{
    if offset < input.len() && input[offset] == 46 {
        (offset + 1, TokenType::Op(OperatorKind::DotDot))
    } else if offset < input.len() && input[offset] == 41 {
        (offset + 1, TokenType::Op(OperatorKind::RBrack))
    } else {
        (offset, TokenType::Op(OperatorKind::Dot))
    }
}

fn simple_op(offset: usize, kind: OperatorKind) -> (r: (usize, TokenType))
    ensures
        r == (offset, TokenType::Op(kind)),
{
    (offset, TokenType::Op(kind))
}


/// The exact result of the brace / paren-star comment-or-directive sub-lexer.
pub open spec fn spec_dir_or_comment(
    s: Seq<u8>,
    ws_start: int,
    tok_start: int,
    offset: int,
    is_first: bool,
    paren_star: bool,
) -> (int, TokenType) {
    if offset < s.len() && s[offset] == 36 {
        let hdr = spec_directive_type(s.subrange(offset + 1, spec_run_end(s, offset + 1, 3)));
        match spec_directive_end(s, offset + 1, paren_star) {
            Some(e) => (e, hdr),
            None => (spec_trailing_ws_start(s), hdr),
        }
    } else if paren_star {
        let close = spec_star_paren_scan(s, tok_start + 1);
        if close + 2 <= s.len() {
            (
                close + 2,
                TokenType::Comment(
                    spec_block_comment_kind(s, ws_start, offset, close + 2, is_first),
                ),
            )
        } else {
            (spec_trailing_ws_start(s), TokenType::Comment(CommentKind::MultilineBlock))
        }
    } else {
        let close = spec_run_end(s, offset, 7);
        if close < s.len() {
            (
                close + 1,
                TokenType::Comment(
                    spec_block_comment_kind(s, ws_start, offset, close + 1, is_first),
                ),
            )
        } else {
            (spec_trailing_ws_start(s), TokenType::Comment(CommentKind::MultilineBlock))
        }
    }
}

/// The exact result of the `(` sub-lexer.
pub open spec fn spec_l_paren(
    s: Seq<u8>,
    ws_start: int,
    tok_start: int,
    offset: int,
    is_first: bool,
) -> (int, TokenType) {
    if offset < s.len() && s[offset] == 42 {
        spec_dir_or_comment(s, ws_start, tok_start, offset + 1, is_first, true)
    } else if offset < s.len() && s[offset] == 46 {
        (offset + 1, TokenType::Op(OperatorKind::LBrack))
    } else {
        (offset, TokenType::Op(OperatorKind::LParen))
    }
}

/// The exact result of the `/` sub-lexer.
pub open spec fn spec_slash(
    s: Seq<u8>,
    ws_start: int,
    tok_start: int,
    offset: int,
    is_first: bool,
) -> (int, TokenType) {
    if offset < s.len() && s[offset] == 47 {
        (
            spec_run_end(s, offset + 1, 6),
            TokenType::Comment(
                if is_first || spec_first_lf(s, ws_start, tok_start) < tok_start {
                    CommentKind::IndividualLine
                } else {
                    CommentKind::InlineLine
                },
            ),
        )
    } else {
        (offset, TokenType::Op(OperatorKind::Slash))
    }
}

/// The exact result of the `&` sub-lexer.
pub open spec fn spec_ampersand(s: Seq<u8>, offset: int) -> (int, TokenType) {
    if offset >= s.len() {
        (offset, TokenType::Unknown)
    } else if s[offset] == 36 {
        (spec_run_end(s, offset + 1, 1), TokenType::NumberLiteral(NumberLiteralKind::Hex))
    } else if s[offset] == 37 {
        (spec_run_end(s, offset + 1, 2), TokenType::NumberLiteral(NumberLiteralKind::Binary))
    } else if spec_is_digit(s[offset]) {
        (spec_dec_literal_end(s, offset + 1), TokenType::NumberLiteral(NumberLiteralKind::Decimal))
    } else if spec_is_alpha_byte(s[offset]) || s[offset] == 95 {
        (spec_ident_end(s, offset + 1), TokenType::Identifier)
    } else if s[offset] == 38 {
        (spec_ident_end(s, spec_run_end(s, offset + 1, 5)), TokenType::Identifier)
    } else {
        (offset, TokenType::Unknown)
    }
}

/// The exact result of the text-literal sub-lexer.
pub open spec fn spec_text_literal(s: Seq<u8>, offset: int) -> (int, TokenType) {
    if spec_is_multiline_opener(s, offset - 1) {
        let t = spec_first_triple_quote(s, offset + 2);
        if t + 3 <= s.len() {
            (t + 3, TokenType::TextLiteral(TextLiteralKind::MultiLine))
        } else {
            (s.len() as int, TokenType::TextLiteral(TextLiteralKind::Unterminated))
        }
    } else {
        let e = spec_text_end(s, offset - 1);
        (
            if e.0 < offset {
                offset
            } else {
                e.0
            },
            TokenType::TextLiteral(
                if e.1 {
                    TextLiteralKind::Unterminated
                } else {
                    TextLiteralKind::SingleLine
                },
            ),
        )
    }
}

/// The exact result of the assembly-number sub-lexer.
pub open spec fn spec_asm_number(s: Seq<u8>, offset: int) -> (int, TokenType) {
    let o = spec_run_end(s, offset, 1);
    if o < s.len() && (s[o] == 79 || s[o] == 111) {
        (o + 1, TokenType::NumberLiteral(NumberLiteralKind::Octal))
    } else if o < s.len() && (s[o] == 72 || s[o] == 104) {
        (o + 1, TokenType::NumberLiteral(NumberLiteralKind::Hex))
    } else if s[o - 1] == 66 || s[o - 1] == 98 {
        (o, TokenType::NumberLiteral(NumberLiteralKind::Binary))
    } else {
        (o, TokenType::NumberLiteral(NumberLiteralKind::Decimal))
    }
}


/// The exact result of lexing one token whose first byte stands at
/// `tok_start`: the jump table written as one specification, for the default
/// table and (with `in_asm`) the assembly table.
pub open spec fn spec_dispatch(
    s: Seq<u8>,
    ws_start: int,
    tok_start: int,
    is_first: bool,
    in_asm: bool,
) -> (int, TokenType) {
    let b = s[tok_start];
    let offset = tok_start + 1;
    if in_asm && b == 64 {
        (spec_run_end(s, offset, 4), TokenType::Identifier)
    } else if in_asm && b == 34 {
        let e = spec_asm_text_end(s, offset);
        (
            e.0,
            TokenType::TextLiteral(
                if e.1 {
                    TextLiteralKind::SingleLine
                } else {
                    TextLiteralKind::Unterminated
                },
            ),
        )
    } else if in_asm && spec_is_digit(b) {
        spec_asm_number(s, offset)
    } else if in_asm && (b == 101 || b == 69) {
        let end = spec_ident_end(s, offset);
        if crate::keywords::spec_lower_bytes(s.subrange(tok_start, end)) =~= seq![
            101u8,
            110u8,
            100u8,
        ] {
            (end, TokenType::Keyword(KeywordKind::End))
        } else {
            (end, TokenType::Identifier)
        }
    } else if in_asm && spec_is_alpha_byte(b) {
        (spec_ident_end(s, offset), TokenType::Identifier)
    } else if b == 40 {
        spec_l_paren(s, ws_start, tok_start, offset, is_first)
    } else if b == 123 {
        spec_dir_or_comment(s, ws_start, tok_start, offset, is_first, false)
    } else if b == 47 {
        spec_slash(s, ws_start, tok_start, offset, is_first)
    } else if b == 58 {
        spec_colon(s, offset)
    } else if b == 60 {
        spec_l_angle(s, offset)
    } else if b == 62 {
        spec_r_angle(s, offset)
    } else if b == 46 {
        spec_dot(s, offset)
    } else if b == 43 {
        (offset, TokenType::Op(OperatorKind::Plus))
    } else if b == 45 {
        (offset, TokenType::Op(OperatorKind::Minus))
    } else if b == 42 {
        (offset, TokenType::Op(OperatorKind::Star))
    } else if b == 44 {
        (offset, TokenType::Op(OperatorKind::Comma))
    } else if b == 59 {
        (offset, TokenType::Op(OperatorKind::Semicolon))
    } else if b == 61 {
        (offset, TokenType::Op(OperatorKind::Equal(EqKind::Comp)))
    } else if b == 94 {
        (offset, TokenType::Op(OperatorKind::Caret(CaretKind::Deref)))
    } else if b == 64 {
        (offset, TokenType::Op(OperatorKind::AddressOf))
    } else if b == 91 {
        (offset, TokenType::Op(OperatorKind::LBrack))
    } else if b == 93 {
        (offset, TokenType::Op(OperatorKind::RBrack))
    } else if b == 41 {
        (offset, TokenType::Op(OperatorKind::RParen))
    } else if b == 39 || b == 35 {
        spec_text_literal(s, offset)
    } else if b == 38 {
        spec_ampersand(s, offset)
    } else if b == 37 {
        (spec_run_end(s, offset, 2), TokenType::NumberLiteral(NumberLiteralKind::Binary))
    } else if b == 36 {
        (spec_run_end(s, offset, 1), TokenType::NumberLiteral(NumberLiteralKind::Hex))
    } else if spec_is_digit(b) {
        (spec_dec_literal_end(s, offset), TokenType::NumberLiteral(NumberLiteralKind::Decimal))
    } else if spec_is_alpha_byte(b) {
        (
            spec_ident_end(s, offset),
            crate::keywords::spec_word_token_type(s.subrange(tok_start, spec_ident_end(s, offset))),
        )
    } else if b == 95 {
        (spec_ident_end(s, offset), TokenType::Identifier)
    } else if b >= 0x80 {
        (spec_ident_end(s, spec_run_end(s, offset, 9)), TokenType::Identifier)
    } else {
        (offset, TokenType::Unknown)
    }
}

/// Lexes one token with the default jump table. `tok_start` indexes the byte
/// that selects the sub-lexer; the leading whitespace starts at `ws_start`.
#[verifier::rlimit(100)]
fn lex_token(input: &[u8], ws_start: usize, tok_start: usize, is_first: bool) -> (r: (
    usize,
    TokenType,
))
    requires
        ws_start <= tok_start < input@.len(),
    ensures
        tok_start < r.0 <= input@.len(),
        r.1 != TokenType::Eof,
        r.0 as int == spec_dispatch(input@, ws_start as int, tok_start as int, is_first, false).0,
        r.1 == spec_dispatch(input@, ws_start as int, tok_start as int, is_first, false).1,
{
    let b = input[tok_start];
    let offset = tok_start + 1;
    if b == 40 {
        l_paren(input, ws_start, tok_start, offset, is_first)
    } else if b == 123 {
        compiler_directive_or_comment(input, ws_start, tok_start, offset, is_first)
    } else if b == 47 {
        slash(input, ws_start, tok_start, offset, is_first)
    } else if b == 58 {
        colon(input, offset)
    } else if b == 60 {
        l_angle(input, offset)
    } else if b == 62 {
        r_angle(input, offset)
    } else if b == 46 {
        dot(input, offset)
    } else if b == 43 {
        simple_op(offset, OperatorKind::Plus)
    } else if b == 45 {
        simple_op(offset, OperatorKind::Minus)
    } else if b == 42 {
        simple_op(offset, OperatorKind::Star)
    } else if b == 44 {
        simple_op(offset, OperatorKind::Comma)
    } else if b == 59 {
        simple_op(offset, OperatorKind::Semicolon)
    } else if b == 61 {
        simple_op(offset, OperatorKind::Equal(EqKind::Comp))
    } else if b == 94 {
        simple_op(offset, OperatorKind::Caret(CaretKind::Deref))
    } else if b == 64 {
        simple_op(offset, OperatorKind::AddressOf)
    } else if b == 91 {
        simple_op(offset, OperatorKind::LBrack)
    } else if b == 93 {
        simple_op(offset, OperatorKind::RBrack)
    } else if b == 41 {
        simple_op(offset, OperatorKind::RParen)
    } else if b == 39 || b == 35 {
        text_literal(input, offset)
    } else if b == 38 {
        ampersand_number_literal_or_ident(input, offset)
    } else if b == 37 {
        binary_number_literal(input, offset)
    } else if b == 36 {
        hex_number_literal(input, offset)
    } else if 48 <= b && b <= 57 {
        dec_number_literal(input, offset)
    } else if (65 <= b && b <= 90) || (97 <= b && b <= 122) {
        identifier_or_keyword(input, offset)
    } else if b == 95 {
        identifier(input, offset)
    } else if b >= 0x80 {
        lex_unicode(input, offset)
    } else {
        unknown(offset)
    }
}

/// Lexes one token with the assembly jump table: `@` labels, double-quoted
/// strings, suffix-based number bases, and `end` as the only keyword.
#[verifier::rlimit(100)]
fn lex_asm_token(input: &[u8], ws_start: usize, tok_start: usize, is_first: bool) -> (r: (
    usize,
    TokenType,
))
    requires
        ws_start <= tok_start < input@.len(),
    ensures
        tok_start < r.0 <= input@.len(),
        r.1 != TokenType::Eof,
        r.0 as int == spec_dispatch(input@, ws_start as int, tok_start as int, is_first, true).0,
        r.1 == spec_dispatch(input@, ws_start as int, tok_start as int, is_first, true).1,
{
    let b = input[tok_start];
    let offset = tok_start + 1;
    if b == 64 {
        asm_label(input, offset)
    } else if b == 34 {
        asm_text_literal(input, offset)
    } else if 48 <= b && b <= 57 {
        asm_number_literal(input, offset)
    } else if b == 101 || b == 69 {
        asm_identifier(input, offset)
    } else if (65 <= b && b <= 90) || (97 <= b && b <= 122) {
        identifier(input, offset)
    } else if b == 40 {
        l_paren(input, ws_start, tok_start, offset, is_first)
    } else if b == 123 {
        compiler_directive_or_comment(input, ws_start, tok_start, offset, is_first)
    } else if b == 47 {
        slash(input, ws_start, tok_start, offset, is_first)
    } else if b == 58 {
        colon(input, offset)
    } else if b == 60 {
        l_angle(input, offset)
    } else if b == 62 {
        r_angle(input, offset)
    } else if b == 46 {
        dot(input, offset)
    } else if b == 43 {
        simple_op(offset, OperatorKind::Plus)
    } else if b == 45 {
        simple_op(offset, OperatorKind::Minus)
    } else if b == 42 {
        simple_op(offset, OperatorKind::Star)
    } else if b == 44 {
        simple_op(offset, OperatorKind::Comma)
    } else if b == 59 {
        simple_op(offset, OperatorKind::Semicolon)
    } else if b == 61 {
        simple_op(offset, OperatorKind::Equal(EqKind::Comp))
    } else if b == 94 {
        simple_op(offset, OperatorKind::Caret(CaretKind::Deref))
    } else if b == 91 {
        simple_op(offset, OperatorKind::LBrack)
    } else if b == 93 {
        simple_op(offset, OperatorKind::RBrack)
    } else if b == 41 {
        simple_op(offset, OperatorKind::RParen)
    } else if b == 39 || b == 35 {
        text_literal(input, offset)
    } else if b == 38 {
        ampersand_number_literal_or_ident(input, offset)
    } else if b == 37 {
        binary_number_literal(input, offset)
    } else if b == 36 {
        hex_number_literal(input, offset)
    } else if b == 95 {
        identifier(input, offset)
    } else if b >= 0x80 {
        lex_unicode(input, offset)
    } else {
        unknown(offset)
    }
}

/// The concatenation of every token's bytes, leading whitespace included.
pub open spec fn spec_flatten(toks: Seq<Token>) -> Seq<u8>
    decreases toks.len(),
{
    if toks.len() == 0 {
        Seq::empty()
    } else {
        spec_flatten(toks.drop_last()) + toks.last().spec_full()
    }
}


proof fn lemma_asm_text_end_bounds(s: Seq<u8>, i: int)
    requires
        0 <= i <= s.len(),
    ensures
        i <= spec_asm_text_end(s, i).0 <= s.len(),
    decreases s.len() - i,
{
    if i < s.len() && s[i] != 34 && s[i] != 10 && s[i] != 13 {
        if s[i] == 92 {
            if s.len() - i >= 2 {
                lemma_asm_text_end_bounds(s, i + 2);
            }
        } else {
            lemma_asm_text_end_bounds(s, i + 1);
        }
    }
}

proof fn lemma_text_end_bounds(s: Seq<u8>, i: int)
    requires
        0 <= i <= s.len(),
    ensures
        i <= spec_text_end(s, i).0 <= s.len(),
    decreases s.len() - i,
{
    lemma_escapes_end_bounds(s, i);
    let e = spec_escapes_end(s, i);
    if e.1 {
        lemma_pascal_end_bounds(s, e.0);
        let p = spec_pascal_end(s, e.0);
        if p.1 == 0 {
            lemma_text_end_bounds(s, p.0);
        }
    }
}

proof fn lemma_directive_end_bounds(s: Seq<u8>, i: int, paren_star: bool)
    requires
        0 <= i <= s.len(),
    ensures
        spec_directive_end(s, i, paren_star) matches Some(e) ==> i < e <= s.len(),
    decreases s.len() - i,
{
    if i < s.len() {
        if s[i] == 39 {
            lemma_run_end_bounds(s, i + 1, 8);
            let q = spec_run_end(s, i + 1, 8);
            if q < s.len() {
                lemma_directive_end_bounds(s, q + 1, paren_star);
            }
        } else if !(!paren_star && s[i] == 125) && !(paren_star && s[i] == 42 && i + 1 < s.len()
            && s[i + 1] == 41) {
            lemma_directive_end_bounds(s, i + 1, paren_star);
        }
    }
}

proof fn lemma_first_triple_quote_bounds(s: Seq<u8>, i: int)
    requires
        0 <= i <= s.len(),
    ensures
        i <= spec_first_triple_quote(s, i) <= s.len(),
    decreases s.len() - i,
{
    if i + 3 <= s.len() && !(s[i] == 39 && s[i + 1] == 39 && s[i + 2] == 39) {
        lemma_first_triple_quote_bounds(s, i + 1);
    }
}

proof fn lemma_star_paren_scan_bounds(s: Seq<u8>, i: int)
    requires
        0 <= i <= s.len(),
    ensures
        i <= spec_star_paren_scan(s, i) <= s.len(),
    decreases s.len() - i,
{
    if i + 2 <= s.len() && !(s[i] == 42 && s[i + 1] == 41) {
        lemma_star_paren_scan_bounds(s, i + 1);
    }
}

/// A byte that no whitespace run holds keeps the trailing run behind it.
proof fn lemma_trailing_after_visible(s: Seq<u8>, k: int)
    requires
        0 <= k < s.len(),
        !spec_is_blankish(s[k]),
    ensures
        spec_trailing_ws_start(s) > k,
{
    lemma_trailing_ws_bounds(s);
    if spec_trailing_ws_start(s) <= k {
        assert(spec_is_blankish(s[k]));
    }
}

/// The dispatched token always ends past its first byte and inside the
/// input.
/// The whitespace scan stops only at a visible byte.
proof fn lemma_ws_end_stops(s: Seq<u8>, i: int)
    requires
        0 <= i <= s.len(),
    ensures
        spec_ws_end(s, i) < s.len() ==> s[spec_ws_end(s, i)] > 0x20,
    decreases s.len() - i,
{
    if i + 3 <= s.len() && s[i] == 0xe3 && s[i + 1] == 0x80 && s[i + 2] == 0x80 {
        lemma_ws_end_stops(s, i + 3);
    } else if i < s.len() && s[i] <= 0x20 {
        lemma_ws_end_stops(s, i + 1);
    }
}

proof fn lemma_dispatch_bounds(s: Seq<u8>, ws_start: int, tok_start: int, is_first: bool, in_asm: bool)
    requires
        0 <= ws_start <= tok_start < s.len(),
        !spec_is_blankish(s[tok_start]) || s[tok_start] >= 0x80,
    ensures
        tok_start < spec_dispatch(s, ws_start, tok_start, is_first, in_asm).0 <= s.len(),
{
    let b = s[tok_start];
    let offset = tok_start + 1;
    lemma_run_end_bounds(s, offset, 0);
    lemma_run_end_bounds(s, offset, 1);
    lemma_run_end_bounds(s, offset, 2);
    lemma_run_end_bounds(s, offset, 3);
    lemma_run_end_bounds(s, offset, 4);
    lemma_run_end_bounds(s, offset, 5);
    lemma_run_end_bounds(s, offset, 6);
    lemma_run_end_bounds(s, offset, 7);
    lemma_run_end_bounds(s, offset, 9);
    lemma_ident_end_bounds(s, offset);
    lemma_asm_text_end_bounds(s, offset);
    lemma_text_end_bounds(s, tok_start);
    lemma_trailing_ws_bounds(s);
    if b == 40 || b == 123 {
        lemma_trailing_after_visible(s, tok_start);
        if offset < s.len() && s[offset] == 36 {
            lemma_directive_end_bounds(s, offset + 1, b == 40);
        }
        if b == 40 && offset < s.len() && s[offset] == 42 {
            if offset + 1 < s.len() && s[offset + 1] == 36 {
                lemma_directive_end_bounds(s, offset + 2, true);
            }
            lemma_star_paren_scan_bounds(s, tok_start + 1);
        }
        if offset + 1 <= s.len() {
            lemma_run_end_bounds(s, offset + 1, 3);
        }
        if offset + 2 <= s.len() {
            lemma_run_end_bounds(s, offset + 2, 3);
        }
    }
    if b == 47 && offset < s.len() && s[offset] == 47 {
        lemma_run_end_bounds(s, offset + 1, 6);
    }
    if b == 39 || b == 35 {
        if spec_is_multiline_opener(s, tok_start) {
            lemma_first_triple_quote_bounds(s, offset + 2);
        }
    }
    if b == 38 {
        if offset < s.len() {
            lemma_run_end_bounds(s, offset + 1, 1);
            lemma_run_end_bounds(s, offset + 1, 2);
            lemma_dec_literal_bounds(s, offset + 1);
            lemma_ident_end_bounds(s, offset + 1);
            lemma_run_end_bounds(s, offset + 1, 5);
            lemma_ident_end_bounds(s, spec_run_end(s, offset + 1, 5));
        }
    }
    if spec_is_digit(b) {
        lemma_dec_literal_bounds(s, offset);
    }
    if b >= 0x80 {
        lemma_ident_end_bounds(s, spec_run_end(s, offset, 9));
    }
}

proof fn lemma_dec_literal_bounds(s: Seq<u8>, i: int)
    requires
        0 <= i <= s.len(),
    ensures
        i <= spec_dec_literal_end(s, i) <= s.len(),
{
    lemma_run_end_bounds(s, i, 0);
    let o1 = spec_run_end(s, i, 0);
    if o1 + 1 < s.len() && s[o1] == 46 && spec_is_digit(s[o1 + 1]) {
        lemma_run_end_bounds(s, o1 + 1, 0);
    }
    let o2 = spec_dec_literal_end_frac(s, i);
    if o2 < s.len() && (s[o2] == 101 || s[o2] == 69) {
        lemma_run_end_bounds(s, o2 + 1, 0);
        if o2 + 2 <= s.len() {
            lemma_run_end_bounds(s, o2 + 2, 0);
        }
    }
}

/// The fraction part of `spec_dec_literal_end`, named for the bounds proof.
pub open spec fn spec_dec_literal_end_frac(s: Seq<u8>, i: int) -> int {
    let o1 = spec_run_end(s, i, 0);
    if o1 + 1 < s.len() && s[o1] == 46 && spec_is_digit(s[o1 + 1]) {
        spec_run_end(s, o1 + 1, 0)
    } else {
        o1
    }
}

/// The tokenization itself, as a specification: each entry is one token's
/// start, its whitespace end, its exclusive end, and its type; the last entry
/// is the `Eof` token holding the trailing whitespace. The assembly mode is
/// entered at an `asm` keyword and left at the next bare `end`.
pub open spec fn spec_lex_from(s: Seq<u8>, pos: int, in_asm: bool, is_first: bool) -> Seq<
    (int, int, int, TokenType),
>
    decreases s.len() - pos
        when 0 <= pos <= s.len()
        via spec_lex_from_decreases
{
    let ws_end = spec_ws_end(s, pos);
    if ws_end >= s.len() {
        seq![(pos, s.len() as int, s.len() as int, TokenType::Eof)]
    } else {
        let d = spec_dispatch(s, pos, ws_end, is_first, in_asm);
        let next_asm = if in_asm {
            d.1 != TokenType::Keyword(KeywordKind::End)
        } else {
            d.1 == TokenType::Keyword(KeywordKind::Asm)
        };
        seq![(pos, ws_end, d.0, d.1)] + spec_lex_from(s, d.0, next_asm, false)
    }
}

#[via_fn]
proof fn spec_lex_from_decreases(s: Seq<u8>, pos: int, in_asm: bool, is_first: bool) {
    lemma_ws_run_blankish(s, pos);
    lemma_ws_end_stops(s, pos);
    let ws_end = spec_ws_end(s, pos);
    if ws_end < s.len() {
        assert(!spec_is_blankish(s[ws_end]) || s[ws_end] >= 0x80) by {
            assert(s[ws_end] > 0x20);
        }
        lemma_dispatch_bounds(s, pos, ws_end, is_first, in_asm);
    }
}

impl DelphiLexer {
    /// Tokenisation is total: every input lexes to a token sequence ending in
    /// an `Eof` token (and `Eof` appears only there), and concatenating every
    /// token's leading whitespace and content restores the input byte for
    /// byte. (A whitespace run of 2^32 bytes or more is truncated from the
    /// front, as no token can count it; no input below 4 GiB reaches that.)
    pub fn lex<'a>(&self, input: &'a [u8]) -> (r: Vec<Token<'a>>)
        ensures
            r@.len() >= 1,
            forall|i: int| 0 <= i < r@.len() ==> (#[trigger] r@[i]).wf(),
            r@[r@.len() - 1].spec_type() == TokenType::Eof,
            forall|i: int| 0 <= i < r@.len() - 1 ==> (#[trigger] r@[i]).spec_type()
                != TokenType::Eof,
            forall|i: int| 0 <= i < r@.len() - 1 ==> (#[trigger] r@[i]).spec_content().len() > 0,
            r@[r@.len() - 1].spec_content().len() == 0,
            forall|j: int|
                0 <= j < r@[r@.len() - 1].spec_full().len() ==> spec_is_blankish(
                    #[trigger] r@[r@.len() - 1].spec_full()[j],
                ),
            input@.len() < 0x1_0000_0000 ==> spec_flatten(r@) == input@,
            input@.len() < 0x1_0000_0000 ==> forall|i: int|
                0 <= i < r@.len() - 1 ==> (#[trigger] r@[i]).spec_content()[0] > 0x20,
            input@.len() < 0x1_0000_0000 ==> r@.len() == spec_lex_from(input@, 0, false, true).len()
                && forall|i: int|
                0 <= i < r@.len() ==> {
                    let d = #[trigger] spec_lex_from(input@, 0, false, true)[i];
                    &&& r@[i].spec_full() == input@.subrange(d.0, d.2)
                    &&& r@[i].spec_ws_len() == d.1 - d.0
                    &&& r@[i].spec_type() == d.3
                },
    {
        let mut tokens: Vec<Token<'a>> = Vec::new();
        let mut pos: usize = 0;
        let mut in_asm = false;
        let mut is_first = true;
        let ghost mut descs: Seq<(int, int, int, TokenType)> = Seq::empty();
        loop
            invariant
                pos <= input@.len(),
                input@.len() < 0x1_0000_0000 ==> {
                    &&& spec_lex_from(input@, 0, false, true) == descs + spec_lex_from(
                        input@,
                        pos as int,
                        in_asm,
                        is_first,
                    )
                    &&& tokens@.len() == descs.len()
                    &&& forall|i: int|
                        0 <= i < descs.len() ==> {
                            let d = #[trigger] descs[i];
                            &&& tokens@[i].spec_full() == input@.subrange(d.0, d.2)
                            &&& tokens@[i].spec_ws_len() == d.1 - d.0
                            &&& tokens@[i].spec_type() == d.3
                        }
                },
                forall|i: int| 0 <= i < tokens@.len() ==> (#[trigger] tokens@[i]).wf(),
                forall|i: int| 0 <= i < tokens@.len() ==> (#[trigger] tokens@[i]).spec_type()
                    != TokenType::Eof,
                forall|i: int| 0 <= i < tokens@.len() ==> (#[trigger] tokens@[i]).spec_content().len()
                    > 0,
                input@.len() < 0x1_0000_0000 ==> spec_flatten(tokens@) == input@.take(pos as int),
                input@.len() < 0x1_0000_0000 ==> forall|i: int|
                    0 <= i < tokens@.len() ==> (#[trigger] tokens@[i]).spec_content()[0] > 0x20,
            decreases input@.len() - pos,
        {
            let _n = input.len();
            let ws_count = count_leading_whitespace(input, pos);
            let ws_end = pos + ws_count;
            if ws_end >= input.len() {
                let ghost old_tokens = tokens@;
                proof {
                    lemma_ws_run_blankish(input@, pos as int);
                }
                let tok = Self::make_token(input, pos, input.len(), TokenType::Eof);
                tokens.push(tok);
                proof {
                    assert(tokens@.drop_last() =~= old_tokens);
                    if input@.len() < 0x1_0000_0000 {
                        assert(input@.take(pos as int) + input@.subrange(
                            pos as int,
                            input@.len() as int,
                        ) =~= input@);
                        // the Eof token is all whitespace, so its whitespace
                        // count is its whole length
                        assert(tok.spec_ws_len() == input@.len() - pos) by {
                            assert(tok.spec_content().len() == 0);
                        }
                        let descs0 = descs;
                        descs = descs + seq![
                            (pos as int, input@.len() as int, input@.len() as int, TokenType::Eof),
                        ];
                        assert(spec_lex_from(input@, pos as int, in_asm, is_first) =~= seq![
                            (pos as int, input@.len() as int, input@.len() as int, TokenType::Eof),
                        ]);
                        assert(spec_lex_from(input@, 0, false, true) =~= descs);
                        assert forall|i: int| 0 <= i < descs.len() implies {
                            let d = #[trigger] descs[i];
                            &&& tokens@[i].spec_full() == input@.subrange(d.0, d.2)
                            &&& tokens@[i].spec_ws_len() == d.1 - d.0
                            &&& tokens@[i].spec_type() == d.3
                        } by {
                            if i < descs.len() - 1 {
                                assert(descs[i] == descs0[i]);
                                assert(tokens@[i] == old_tokens[i]);
                            } else {
                                assert(tokens@[i] == tok);
                            }
                        }
                    }
                }
                return tokens;
            }
            let (end, typ) = if in_asm {
                lex_asm_token(input, pos, ws_end, is_first)
            } else {
                lex_token(input, pos, ws_end, is_first)
            };
            let ghost old_tokens = tokens@;
            let tok = Self::make_token_with_ws(input, pos, ws_end, end, typ);
            tokens.push(tok);
            proof {
                assert(tokens@.drop_last() =~= old_tokens);
                if input@.len() < 0x1_0000_0000 {
                    assert(input@.take(pos as int) + input@.subrange(pos as int, end as int)
                        =~= input@.take(end as int));
                }
            }
            let ghost pos0 = pos as int;
            let ghost in_asm0 = in_asm;
            let ghost is_first0 = is_first;
            if in_asm {
                if typ == TokenType::Keyword(KeywordKind::End) {
                    in_asm = false;
                }
            } else {
                if typ == TokenType::Keyword(KeywordKind::Asm) {
                    in_asm = true;
                }
            }
            is_first = false;
            pos = end;
            proof {
                if input@.len() < 0x1_0000_0000 {
                    let d = (pos0, ws_end as int, end as int, typ);
                    let descs0 = descs;
                    descs = descs + seq![d];
                    // one unfolding of the tokenization specification
                    assert(spec_lex_from(input@, pos0, in_asm0, is_first0) =~= seq![d]
                        + spec_lex_from(input@, end as int, in_asm, false));
                    assert(spec_lex_from(input@, 0, false, true) =~= descs + spec_lex_from(
                        input@,
                        end as int,
                        in_asm,
                        false,
                    ));
                    assert forall|i: int| 0 <= i < descs.len() implies {
                        let dd = #[trigger] descs[i];
                        &&& tokens@[i].spec_full() == input@.subrange(dd.0, dd.2)
                        &&& tokens@[i].spec_ws_len() == dd.1 - dd.0
                        &&& tokens@[i].spec_type() == dd.3
                    } by {
                        if i < descs.len() - 1 {
                            assert(descs[i] == descs0[i]);
                            assert(tokens@[i] == old_tokens[i]);
                        } else {
                            assert(tokens@[i] == tok);
                        }
                    }
                }
            }
        }
    }

    /// Builds the `Eof` token: all-whitespace content from `pos` to `end`,
    /// truncated from the front when the run cannot be counted in 32 bits.
    fn make_token<'a>(input: &'a [u8], pos: usize, end: usize, typ: TokenType) -> (r: Token<'a>)
        requires
            pos <= end <= input@.len(),
            forall|j: int| pos <= j < end ==> spec_is_blankish(#[trigger] input@[j]),
        ensures
            r.wf(),
            r.spec_type() == typ,
            r.spec_content().len() == 0,
            forall|j: int|
                0 <= j < r.spec_full().len() ==> spec_is_blankish(#[trigger] r.spec_full()[j]),
            (end - pos < 0x1_0000_0000) ==> r.spec_full() == input@.subrange(
                pos as int,
                end as int,
            ),
            (end - pos >= 0x1_0000_0000) ==> r.spec_ws_len() == 0xffff_ffff && r.spec_full()
                == input@.subrange(pos + ((end - pos) - 0xffff_ffff), end as int),
    {
        let ws = end - pos;
        if ws <= u32::MAX as usize {
            let content = vstd::slice::slice_subrange(input, pos, end);
            let t = Token::new_ref(content, ws as u32, typ);
            proof {
                assert(t.spec_content() =~= Seq::<u8>::empty());
            }
            t
        } else {
            let content = vstd::slice::slice_subrange(input, pos + (ws - u32::MAX as usize), end);
            let t = Token::new_ref(content, u32::MAX, typ);
            proof {
                assert(t.spec_content() =~= Seq::<u8>::empty());
            }
            t
        }
    }

    /// Builds a token whose whitespace runs from `pos` to `ws_end` and whose
    /// content runs on to `end`, truncating an over-long whitespace run.
    fn make_token_with_ws<'a>(
        input: &'a [u8],
        pos: usize,
        ws_end: usize,
        end: usize,
        typ: TokenType,
    ) -> (r: Token<'a>)
        requires
            pos <= ws_end < end <= input@.len(),
        ensures
            r.wf(),
            r.spec_type() == typ,
            r.spec_content().len() > 0,
            (ws_end - pos < 0x1_0000_0000) ==> r.spec_full() == input@.subrange(
                pos as int,
                end as int,
            ) && r.spec_ws_len() == ws_end - pos && r.spec_content() == input@.subrange(
                ws_end as int,
                end as int,
            ),
            (ws_end - pos >= 0x1_0000_0000) ==> r.spec_ws_len() == 0xffff_ffff && r.spec_full()
                == input@.subrange(pos + ((ws_end - pos) - 0xffff_ffff), end as int),
    {
        let ws = ws_end - pos;
        if ws <= u32::MAX as usize {
            let content = vstd::slice::slice_subrange(input, pos, end);
            let t = Token::new_ref(content, ws as u32, typ);
            proof {
                assert(t.spec_content() =~= input@.subrange(ws_end as int, end as int));
                assert(t.spec_content().len() > 0);
            }
            t
        } else {
            let start = pos + (ws - u32::MAX as usize);
            let content = vstd::slice::slice_subrange(input, start, end);
            let t = Token::new_ref(content, u32::MAX, typ);
            proof {
                assert(t.spec_content().len() > 0);
            }
            t
        }
    }
}

} // verus!
