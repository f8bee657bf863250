use pasfmt_core::formatter::Formatter;
use pasfmt_core::lang::{
    FormattedTokens, KeywordKind, ReconstructionSettings, TokenMarker, TokenType,
};
use pasfmt_core::lexer::DelphiLexer;
use pasfmt_core::lowercase_keywords::LowercaseKeywords;
use pasfmt_core::reconstructor::DelphiLogicalLinesReconstructor;

fn default_formatter() -> Formatter {
    Formatter::new(ReconstructionSettings::new(
        b"\n".to_vec(),
        b"  ".to_vec(),
        b"  ".to_vec(),
    ))
}

fn run(input: &str) -> String {
    let f = default_formatter();
    String::from_utf8(f.format(input.as_bytes())).unwrap()
}

fn check(input: &str, expected: &str) {
    assert_eq!(run(input), expected, "input: {input:?}");
}

// keyword casing

#[test]
fn keywords_full_uppercase() {
    check("BEGIN END", "begin end");
}

#[test]
fn keywords_partial_uppercase() {
    check("begIn enD", "begin end");
}

#[test]
fn keywords_lowercase() {
    check("begin end", "begin end");
}

#[test]
fn impure_keyword_is_ignored() {
    check("ABSOLUTE := 0", "ABSOLUTE := 0");
}

#[test]
fn impure_keyword_is_formatted_in_context() {
    // once the parser's classification resolves the impure keyword to a
    // keyword (done explicitly here, as the classifier is not part of this
    // library), the casing pass lowers it
    let mut tokens = DelphiLexer {}.lex(b"var a: b ABSOLUTE c");
    let absolute = tokens
        .iter()
        .position(|t| {
            t.get_token_type() == TokenType::IdentifierOrKeyword(KeywordKind::Absolute)
        })
        .expect("no impure keyword lexed");
    tokens[absolute].set_token_type(TokenType::Keyword(KeywordKind::Absolute));
    let marker = TokenMarker::new_unmarked(tokens.len());
    let mut formatted = FormattedTokens::new_from_tokens(tokens, &marker);
    LowercaseKeywords {}.format(&mut formatted, &Vec::new());
    let settings = ReconstructionSettings::new(b"\n".to_vec(), b"  ".to_vec(), b"  ".to_vec());
    let out = DelphiLogicalLinesReconstructor::new(settings).reconstruct(&formatted);
    assert_eq!(String::from_utf8(out).unwrap(), "var a: b absolute c");
}

#[test]
fn keywords_skip_ignored_tokens() {
    check("{pasfmt off} BEGIN {pasfmt on} END", "{pasfmt off} BEGIN {pasfmt on} end");
}

// line comments

#[test]
fn comment_no_space_at_start() {
    check("//a", "// a");
}

#[test]
fn comment_empty() {
    check("//", "//");
}

#[test]
fn comment_multiple_spaces_at_start_remain() {
    check("//  a", "//  a");
}

#[test]
fn comment_tab_at_start_remains() {
    check("//\x09a\n//\x0Cb", "//\x09a\n//\x0Cb");
}

#[test]
fn comment_ascii_whitespace_at_end_is_trimmed() {
    check("// a\u{A0}\x20\x09\x0C", "// a\u{A0}");
}

#[test]
fn comment_insert_at_start_and_trim_at_end() {
    check("//a ", "// a");
}

#[test]
fn comment_empty_doc() {
    check("///", "///");
}

#[test]
fn comment_no_space_at_start_doc() {
    check("///a", "/// a");
}

#[test]
fn comment_slash_after_doc() {
    check("////", "/// /");
}

#[test]
fn comment_separators_ignored() {
    check("//----------", "//----------");
    check("//----------\x20\x09", "//----------");
    check("// ----------", "// ----------");
    check("//--------------------", "//--------------------");
    check("//++++++++++", "//++++++++++");
    check("//,,,,,,,,,,", "//,,,,,,,,,,");
    check("//__________", "//__________");
    check("//##########", "//##########");
    check("//[[[[[[[[[[", "//[[[[[[[[[[");
}

#[test]
fn comment_multibyte_separators_ignored() {
    // a run of one repeated multi-byte character is a separator too
    check("//\u{2022}\u{2022}\u{2022}\u{2022}\u{2022}\u{2022}\u{2022}\u{2022}\u{2022}\u{2022}",
          "//\u{2022}\u{2022}\u{2022}\u{2022}\u{2022}\u{2022}\u{2022}\u{2022}\u{2022}\u{2022}");
}

#[test]
fn comment_alphanumeric_multibyte_run_not_a_separator() {
    // a repeated alphanumeric character is no separator, whatever its width
    check("//\u{f6}\u{f6}\u{f6}\u{f6}\u{f6}\u{f6}\u{f6}\u{f6}\u{f6}\u{f6}",
          "// \u{f6}\u{f6}\u{f6}\u{f6}\u{f6}\u{f6}\u{f6}\u{f6}\u{f6}\u{f6}");
}

#[test]
fn comment_not_quite_separators_not_ignored() {
    check("//---------", "// ---------");
    check("//---------+", "// ---------+");
    check("//++-+++++++", "// ++-+++++++");
    check("//OOOOOOOOOO", "// OOOOOOOOOO");
}

// compiler directives

#[test]
fn directive_brace_style() {
    check("{$define foo}", "{$DEFINE foo}");
}

#[test]
fn directive_paren_star_style() {
    check("(*$define foo*)", "(*$DEFINE foo*)");
}

#[test]
fn directive_already_uppercase() {
    check("{$DEFINE foo}", "{$DEFINE foo}");
}

#[test]
fn directive_nested_style() {
    check("(*$message '}'*){$message '*)'}", "(*$MESSAGE '}'*){$MESSAGE '*)'}");
}

#[test]
fn directive_invalid_space_at_start() {
    check("(*$ define foo*)", "(*$ define foo*)");
}

#[test]
fn directive_no_space_after() {
    check("{$message''}", "{$MESSAGE''}");
}

#[test]
fn switch_directives() {
    check("{$o+}{$r-}{$z2}{$a16}", "{$O+}{$R-}{$Z2}{$A16}");
}

#[test]
fn batched_switch_directives() {
    check(
        "{$o+,r-,b+,a+,a1,a2,a4,a8,a16,z1,z2,z4}{$a1,b+}",
        "{$O+,R-,B+,A+,A1,A2,A4,A8,A16,Z1,Z2,Z4}{$A1,B+}",
    );
}

#[test]
fn fake_batched_directives() {
    check("{$if,comment}", "{$IF,comment}");
}

#[test]
fn unknown_directive_names() {
    check(
        "{$asdf}{$fdsa}{$as_df}{$as09df}{$asdf09}{$zyxw}",
        "{$ASDF}{$FDSA}{$AS_DF}{$AS09DF}{$ASDF09}{$ZYXW}",
    );
}

#[test]
fn invalid_directive_names_ignored() {
    check("{$0asdf}{$,a}{$a,b}", "{$0asdf}{$,a}{$a,b}");
}

#[test]
fn incomplete_switch_directive_ignored() {
    check("{$a}{$a+,b}{$a+,}", "{$a}{$a+,b}{$a+,}");
}

#[test]
fn unusual_word_breaks() {
    check("{$a1a}{$a+!a}{$aa-a}{$a_b=a}", "{$A1a}{$A+!a}{$AA-a}{$A_B=a}");
}

#[test]
fn directive_ignored_tokens() {
    check("{$r+}{pasfmt off}{$r+}", "{$R+}{pasfmt off}{$r+}");
}

#[test]
fn directive_trailing_whitespace_kept() {
    check("{$DEFINE foo  }", "{$DEFINE foo  }");
}

// conditional directives

#[test]
fn conditional_simple_expressions() {
    check("{$if foo}{$elseif bar}{$endif}", "{$IF foo}{$ELSEIF bar}{$ENDIF}");
}

#[test]
fn conditional_complex_expressions_not_formatted() {
    check("{$if  (foo>bar  ) and true   }", "{$IF  (foo>bar  ) and true   }");
}

#[test]
fn conditional_all_directives() {
    check(
        "{$ifdef FOo}{$ifndef fOo}{$if fOo}{$elseif fOo}{$else}{$endif}{$ifend}",
        "{$IFDEF FOo}{$IFNDEF fOo}{$IF fOo}{$ELSEIF fOo}{$ELSE}{$ENDIF}{$IFEND}",
    );
}

#[test]
fn conditional_nested_directives_not_formatted() {
    check("{$if {$include foo.inc}}", "{$IF {$include foo.inc}}");
}

#[test]
fn conditional_tricky_quoting() {
    check("{$if foo = '}'}{$if bar}", "{$IF foo = '}'}{$IF bar}");
}

// end-to-end scenarios

#[test]
fn scenario_keyword_casing_and_comment_prefix() {
    check("BEGIN //hello\nEND", "begin // hello\nend");
}

#[test]
fn scenario_directive_casing() {
    check("{$define foo}", "{$DEFINE foo}");
    check("(*$r+*)", "(*$R+*)");
}

#[test]
fn scenario_ignored_range() {
    check(
        "BEGIN {pasfmt off} X := 0; {pasfmt on} END",
        "begin {pasfmt off} X := 0; {pasfmt on} end",
    );
}

#[test]
fn fully_frozen_file_is_byte_identical() {
    let input = "{pasfmt off} BEGIN   //x\n  {$define foo}  END  ";
    assert_eq!(run(input), input);
}

#[test]
fn formatting_is_idempotent_on_scenarios() {
    for input in [
        "BEGIN //hello\nEND",
        "{$define foo}",
        "(*$r+*)",
        "BEGIN {pasfmt off} X := 0; {pasfmt on} END",
        "unit Foo;\n\nINTERFACE\n\nuses Bar; //use\n\nIMPLEMENTATION\n\nend.",
        "{$o+,r-}{$a1a}//a \n'str' #13 $FF %01 1.5e-3 foo(a, b);",
    ] {
        let once = run(input);
        let twice = run(&once);
        assert_eq!(once, twice, "formatting is not idempotent for {input:?}");
    }
}

#[test]
fn whitespace_is_reproduced_from_token_runs() {
    // untouched tokens keep their newlines and trailing spaces-on-last-line
    check("a\n\n  b  c", "a\n\n  b  c");
}
