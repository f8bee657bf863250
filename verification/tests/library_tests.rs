use pasfmt_core::contexts::{
    ContextData, ContextType, DecisionRequirement, SpecificContextDataStack,
};
use pasfmt_core::formatter::{FormatterKind, FormatterSelector};
use pasfmt_core::lang::{OwningToken, RefToken};
use pasfmt_core::lowercase_keywords::LowercaseKeywords;
use pasfmt_core::datagen;
use pasfmt_core::file_selection::formattable_file_path;
use pasfmt_core::lang::{
    FormattedTokens, KeywordKind, LogicalLine, LogicalLines, LogicalLineType, OperatorKind,
    ReconstructionSettings, Token, TokenType,
};
use pasfmt_core::lexer::DelphiLexer;
use pasfmt_core::multiline_strings::StringFormatter;
use pasfmt_core::requirements::InternalOptimisingLineFormatter;
use pasfmt_core::toggler::FormattingToggler;

#[test]
fn asm_end_detection() {
    // the bare `end` leaves assembly mode; the `@@end` label does not
    let tokens = DelphiLexer {}.lex(b"asm @@end: XOR RBX, RBX end");
    let types: Vec<TokenType> = tokens
        .iter()
        .map(|t| t.get_token_type())
        .filter(|t| *t != TokenType::Eof)
        .collect();
    assert_eq!(
        types,
        vec![
            TokenType::Keyword(KeywordKind::Asm),
            TokenType::Identifier,
            TokenType::Op(OperatorKind::Colon),
            TokenType::Identifier,
            TokenType::Identifier,
            TokenType::Op(OperatorKind::Comma),
            TokenType::Identifier,
            TokenType::Keyword(KeywordKind::End),
        ]
    );
    assert_eq!(tokens[1].get_content(), b"@@end");
    assert_eq!(tokens[7].get_content(), b"end");
}

#[test]
fn tokenisation_is_total() {
    // concatenating every token's whitespace and content restores the input
    for input in [
        "unit Foo;\n\nuses Bar, Baz;\n\nbegin\n  X := 'str' + #13#10;\nend.",
        "{unterminated comment\nfoo",
        "? ?? invalid $FF %x asm \"lit end",
        "",
        "   \n\t  ",
    ] {
        let tokens = DelphiLexer {}.lex(input.as_bytes());
        let mut rebuilt: Vec<u8> = Vec::new();
        for t in &tokens {
            rebuilt.extend_from_slice(t.get_leading_whitespace());
            rebuilt.extend_from_slice(t.get_content());
        }
        assert_eq!(rebuilt, input.as_bytes(), "input: {input:?}");
    }
}

#[test]
fn toggler_marks_inclusive_exclusive() {
    let tokens = DelphiLexer {}.lex(b"a {pasfmt off} b c {pasfmt on} d");
    let marker = FormattingToggler {}.mark_ignored(&tokens);
    // a
    assert!(!marker.is_marked(0));
    // the off marker itself is frozen
    assert!(marker.is_marked(1));
    // b, c
    assert!(marker.is_marked(2));
    assert!(marker.is_marked(3));
    // the on marker is not
    assert!(!marker.is_marked(4));
    // d
    assert!(!marker.is_marked(5));
}

#[test]
fn multiline_string_reindent() {
    // a literal whose trailing quotes sit under four spaces, re-homed to one
    // indentation unit of two spaces
    let src = "x := '''\n    abc\n    ''';";
    let tokens = DelphiLexer {}.lex(src.as_bytes());
    let lit_index = tokens
        .iter()
        .position(|t| {
            t.get_token_type()
                == TokenType::TextLiteral(pasfmt_core::lang::TextLiteralKind::MultiLine)
        })
        .expect("no multiline literal lexed");
    let n = tokens.len();
    let marker = pasfmt_core::lang::TokenMarker::new_unmarked(n);
    let mut formatted = FormattedTokens::new_from_tokens(tokens, &marker);
    formatted
        .get_formatting_data_mut(lit_index)
        .unwrap()
        .indentations_before = 1;
    let settings = ReconstructionSettings::new(b"\n".to_vec(), b"  ".to_vec(), b"  ".to_vec());
    let formatter = StringFormatter { recon_settings: &settings };
    let line = LogicalLine::new(None, 0, (0..n).collect(), LogicalLineType::Unknown);
    let changed = formatter.format_multiline_strings(&line, &mut formatted);
    assert!(changed);
    let content = formatted.get_token(lit_index).unwrap().0.get_content().to_vec();
    assert_eq!(String::from_utf8(content).unwrap(), "'''\n  abc\n  '''");
}

fn plain_data() -> ContextData {
    ContextData {
        is_broken: false,
        is_child_broken: false,
        one_element_per_line: None,
        break_anonymous_routine: None,
        supports_break: true,
    }
}

#[test]
fn requirement_empty_stack_is_invalid() {
    let tokens = DelphiLexer {}.lex(b"a + b");
    let engine = InternalOptimisingLineFormatter {
        token_types: tokens.iter().map(|t| t.get_token_type()).collect(),
    };
    let line = LogicalLine::new(None, 0, vec![0, 1, 2], LogicalLineType::Unknown);
    let stack = SpecificContextDataStack::new();
    assert_eq!(
        engine.get_formatting_requirement(1, &line, &stack),
        DecisionRequirement::Invalid
    );
}

#[test]
fn requirement_inline_comment_must_not_break() {
    let tokens = DelphiLexer {}.lex(b"a // trailing");
    let engine = InternalOptimisingLineFormatter {
        token_types: tokens.iter().map(|t| t.get_token_type()).collect(),
    };
    let line = LogicalLine::new(None, 0, vec![0, 1], LogicalLineType::Unknown);
    let mut stack = SpecificContextDataStack::new();
    stack.push(ContextType::Base, plain_data());
    assert_eq!(
        engine.get_formatting_requirement(1, &line, &stack),
        DecisionRequirement::MustNotBreak
    );
}

#[test]
fn requirement_individual_comment_must_break() {
    let tokens = DelphiLexer {}.lex(b"a\n// own line\nb");
    let engine = InternalOptimisingLineFormatter {
        token_types: tokens.iter().map(|t| t.get_token_type()).collect(),
    };
    let line = LogicalLine::new(None, 0, vec![0, 1, 2], LogicalLineType::Unknown);
    let mut stack = SpecificContextDataStack::new();
    stack.push(ContextType::Base, plain_data());
    assert_eq!(
        engine.get_formatting_requirement(1, &line, &stack),
        DecisionRequirement::MustBreak
    );
}

#[test]
fn requirement_must_break_degrades_without_supporting_parent() {
    let tokens = DelphiLexer {}.lex(b"a\n// own line\nb");
    let engine = InternalOptimisingLineFormatter {
        token_types: tokens.iter().map(|t| t.get_token_type()).collect(),
    };
    let line = LogicalLine::new(None, 0, vec![0, 1, 2], LogicalLineType::Unknown);
    let mut stack = SpecificContextDataStack::new();
    let mut data = plain_data();
    data.supports_break = false;
    stack.push(ContextType::Base, data);
    assert_eq!(
        engine.get_formatting_requirement(1, &line, &stack),
        DecisionRequirement::Indifferent
    );
}

#[test]
fn requirement_first_token_must_not_break() {
    let tokens = DelphiLexer {}.lex(b"a + b");
    let engine = InternalOptimisingLineFormatter {
        token_types: tokens.iter().map(|t| t.get_token_type()).collect(),
    };
    let line = LogicalLine::new(None, 0, vec![0, 1, 2], LogicalLineType::Unknown);
    let mut stack = SpecificContextDataStack::new();
    stack.push(ContextType::Base, plain_data());
    assert_eq!(
        engine.get_formatting_requirement(0, &line, &stack),
        DecisionRequirement::MustNotBreak
    );
}

#[test]
fn requirement_binary_operator_must_not_break_after() {
    // a break directly after a binary operator is never allowed
    let tokens = DelphiLexer {}.lex(b"a + b");
    let engine = InternalOptimisingLineFormatter {
        token_types: tokens.iter().map(|t| t.get_token_type()).collect(),
    };
    let line = LogicalLine::new(None, 0, vec![0, 1, 2], LogicalLineType::Unknown);
    let mut stack = SpecificContextDataStack::new();
    stack.push(ContextType::Base, plain_data());
    assert_eq!(
        engine.get_formatting_requirement(2, &line, &stack),
        DecisionRequirement::MustNotBreak
    );
}

#[test]
fn logical_line_voiding() {
    let mut line = LogicalLine::new(Some(3), 2, vec![4, 5, 6], LogicalLineType::Unknown);
    assert_eq!(line.get_parent_token(), Some(3));
    assert_eq!(line.get_level(), 2);
    assert_eq!(line.get_tokens(), &vec![4, 5, 6]);
    assert_eq!(line.get_line_type(), LogicalLineType::Unknown);
    let drained = line.void_and_drain();
    assert_eq!(drained, vec![4, 5, 6]);
    assert!(line.get_tokens().is_empty());
    assert_eq!(line.get_line_type(), LogicalLineType::Voided);
}

#[test]
fn formatting_data_from_whitespace() {
    let tokens: Vec<Token> = DelphiLexer {}.lex(b"a\n\r\n   b");
    let marker = pasfmt_core::lang::TokenMarker::new_unmarked(tokens.len());
    let formatted = FormattedTokens::new_from_tokens(tokens, &marker);
    let data = formatted.get_formatting_data(1).unwrap();
    assert_eq!(data.newlines_before, 2);
    assert_eq!(data.spaces_before, 3);
    assert_eq!(data.indentations_before, 0);
    assert_eq!(data.continuations_before, 0);
}

#[test]
fn corpus_groups_are_complete() {
    let groups = datagen::generate_test_files();
    assert_eq!(groups.len(), 20);
    for group in &groups {
        assert!(!group.is_empty());
        for case in group {
            assert!(!case.name.is_empty());
            assert!(!case.source.is_empty());
            // every case carries source lines in the annotated format
            assert!(case.source.contains('|'), "{}", case.name);
        }
    }
    assert_eq!(groups[0][0].name, "ifdef");
    assert!(groups[0][0].source.starts_with("1 |Foo"));
    assert!(groups[0][0].source.ends_with("4:ConditionalDirective"));
}

#[test]
fn optional_formatter_selector() {
    // the selected pass runs only for lines of its configured kind
    let selector = FormatterSelector::new(vec![(
        LogicalLineType::Unknown,
        FormatterKind::FileFormatter(LowercaseKeywords {}),
    )]);

    let tokens = DelphiLexer {}.lex(b"BEGIN END");
    let marker = pasfmt_core::lang::TokenMarker::new_unmarked(tokens.len());
    let mut formatted = FormattedTokens::new_from_tokens(tokens, &marker);
    let eof_line = LogicalLine::new(None, 0, vec![2], LogicalLineType::Eof);
    selector.format(&mut formatted, &eof_line);
    assert_eq!(formatted.get_token(0).unwrap().0.get_content(), b"BEGIN");

    let unknown_line = LogicalLine::new(None, 0, vec![0, 1], LogicalLineType::Unknown);
    selector.format(&mut formatted, &unknown_line);
    assert_eq!(formatted.get_token(0).unwrap().0.get_content(), b"begin");
    assert_eq!(formatted.get_token(1).unwrap().0.get_content(), b"end");
}

#[test]
fn reconstruction_settings_roundtrip() {
    let settings = ReconstructionSettings::new(
        b"\r\n".to_vec(),
        b"    ".to_vec(),
        b"  ".to_vec(),
    );
    assert_eq!(settings.get_newline_str().as_slice(), b"\r\n");
    assert_eq!(settings.get_indentation_str().as_slice(), b"    ");
    assert_eq!(settings.get_continuation_str().as_slice(), b"  ");
}

#[test]
fn tokens_can_be_retyped_and_rewritten() {
    let content = b"  foo";
    let mut token = Token::RefToken(RefToken::new(content, 2, TokenType::Identifier));
    assert_eq!(token.get_leading_whitespace(), b"  ");
    assert_eq!(token.get_content(), b"foo");
    token.set_token_type(TokenType::Unknown);
    assert_eq!(token.get_token_type(), TokenType::Unknown);
    token.set_content(b"bar".to_vec());
    assert_eq!(token.get_leading_whitespace(), b"  ");
    assert_eq!(token.get_content(), b"bar");

    let owning = OwningToken::new(b" x".to_vec(), 1, TokenType::Identifier);
    let token2 = Token::OwningToken(owning);
    assert_eq!(token2.get_content(), b"x");
}

#[test]
fn requirement_import_clause_comma_must_break() {
    let tokens = DelphiLexer {}.lex(b"uses Foo, Bar");
    let engine = InternalOptimisingLineFormatter {
        token_types: tokens.iter().map(|t| t.get_token_type()).collect(),
    };
    let line = LogicalLine::new(None, 0, vec![0, 1, 2, 3], LogicalLineType::ImportClause);
    let mut stack = SpecificContextDataStack::new();
    stack.push(ContextType::Base, plain_data());
    // the token after the comma, in an import clause, must break
    assert_eq!(
        engine.get_formatting_requirement(3, &line, &stack),
        DecisionRequirement::MustBreak
    );
}

#[test]
fn requirement_empty_parens_must_not_break() {
    let tokens = DelphiLexer {}.lex(b"f()");
    let engine = InternalOptimisingLineFormatter {
        token_types: tokens.iter().map(|t| t.get_token_type()).collect(),
    };
    let line = LogicalLine::new(None, 0, vec![0, 1, 2], LogicalLineType::Unknown);
    let mut stack = SpecificContextDataStack::new();
    stack.push(ContextType::Base, plain_data());
    stack.push(
        ContextType::Brackets(
            pasfmt_core::contexts::BracketKind::Round,
            pasfmt_core::contexts::BracketStyle::Standard,
        ),
        plain_data(),
    );
    assert_eq!(
        engine.get_formatting_requirement(2, &line, &stack),
        DecisionRequirement::MustNotBreak
    );
}

#[test]
fn requirement_else_keyword_must_break() {
    let tokens = DelphiLexer {}.lex(b"x else");
    let engine = InternalOptimisingLineFormatter {
        token_types: tokens.iter().map(|t| t.get_token_type()).collect(),
    };
    let line = LogicalLine::new(None, 0, vec![0, 1], LogicalLineType::ControlFlow);
    let mut stack = SpecificContextDataStack::new();
    stack.push(ContextType::Base, plain_data());
    assert_eq!(
        engine.get_formatting_requirement(1, &line, &stack),
        DecisionRequirement::MustBreak
    );
}

#[test]
fn logical_lines_hold_tokens_and_lines() {
    let tokens = DelphiLexer {}.lex(b"a;");
    let count = tokens.len();
    let line = LogicalLine::new(None, 0, (0..count).collect(), LogicalLineType::Unknown);
    let mut lines = LogicalLines::new(tokens, vec![line]);
    assert_eq!(lines.get_tokens().len(), count);
    assert_eq!(lines.get_lines().len(), 1);
    assert_eq!(lines.get_lines_mut()[0].get_tokens().len(), count);
    assert_eq!(lines.get_tokens_mut().len(), count);
}

#[test]
fn formattable_file_paths() {
    for path in [
        "a.pas", "a.PAS", "a.Pas", "b.dpr", "b.DPR", "b.Dpr", "c.dpk", "c.DPK", "c.Dpk",
        ".pas", ".dpr", ".dpk",
    ] {
        assert!(formattable_file_path(path.as_bytes()), "{path}");
    }
}

#[test]
fn non_formattable_file_paths() {
    for path in [
        "pas", "a.pas1", "a.unpas", "a.pas.x", "dpr", "a.dpr1", "a.undpr", "a.dpr.x", "dpk",
        "a.dpk1", "a.undpk", "a.dpk.x",
    ] {
        assert!(!formattable_file_path(path.as_bytes()), "{path}");
    }
}
