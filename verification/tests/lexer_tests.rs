use pasfmt_core::lang::{
    CaretKind, ChevronKind, CommentKind, ConditionalDirectiveKind, DeclKind, EqKind, InKind,
    KeywordKind, NumberLiteralKind, OperatorKind, TextLiteralKind, Token, TokenType,
};
use pasfmt_core::lexer::DelphiLexer;

use TokenType::Comment;
use TokenType::CompilerDirective;
use TokenType::ConditionalDirective;
use TokenType::Eof;
use TokenType::Identifier;
use TokenType::IdentifierOrKeyword;
use TokenType::Keyword;
use TokenType::NumberLiteral;
use TokenType::Op;
use TokenType::TextLiteral;
use TokenType::Unknown;

fn run_test(input: &str, expected: Vec<(&str, TokenType)>) {
    let lexer = DelphiLexer {};
    let tokens: Vec<Token> = lexer.lex(input.as_bytes());
    let actual: Vec<(Vec<u8>, TokenType)> = tokens
        .iter()
        .filter(|t| t.get_token_type() != Eof)
        .map(|t| (t.get_content().to_vec(), t.get_token_type()))
        .collect();
    let expected: Vec<(Vec<u8>, TokenType)> = expected
        .into_iter()
        .map(|(c, t)| (c.as_bytes().to_vec(), t))
        .collect();
    assert_eq!(
        actual.len(),
        expected.len(),
        "token count mismatch for input {:?}",
        input
    );
    for (i, (a, e)) in actual.iter().zip(expected.iter()).enumerate() {
        assert_eq!(
            a,
            e,
            "token {} mismatch for input {:?}: got {:?}, want {:?}",
            i,
            input,
            String::from_utf8_lossy(&a.0),
            String::from_utf8_lossy(&e.0)
        );
    }
}

fn alternating_case(input: &str) -> String {
    input
        .char_indices()
        .map(|(index, char)| match index % 2 {
            0 => char.to_ascii_uppercase(),
            _ => char.to_ascii_lowercase(),
        })
        .collect::<String>()
}

fn run_casing_test(input: &str, expected_token_type: TokenType) {
    let lowercase = input.to_ascii_lowercase();
    let uppercase = input.to_ascii_uppercase();
    let alternating = alternating_case(input);
    let joined = format!("{} {} {}", lowercase, uppercase, alternating);
    run_test(
        joined.as_str(),
        vec![
            (lowercase.as_str(), expected_token_type),
            (uppercase.as_str(), expected_token_type),
            (alternating.as_str(), expected_token_type),
        ],
    )
}

fn keyword_expectations() -> Vec<(&'static str, TokenType)> {
    vec![
        ("absolute", IdentifierOrKeyword(KeywordKind::Absolute)),
        ("abstract", IdentifierOrKeyword(KeywordKind::Abstract)),
        ("add", IdentifierOrKeyword(KeywordKind::Add)),
        ("align", IdentifierOrKeyword(KeywordKind::Align)),
        ("and", Keyword(KeywordKind::And)),
        ("array", Keyword(KeywordKind::Array)),
        ("as", Keyword(KeywordKind::As)),
        ("assembler", IdentifierOrKeyword(KeywordKind::Assembler)),
        ("at", IdentifierOrKeyword(KeywordKind::At)),
        ("automated", IdentifierOrKeyword(KeywordKind::Automated)),
        ("begin", Keyword(KeywordKind::Begin)),
        ("case", Keyword(KeywordKind::Case)),
        ("cdecl", IdentifierOrKeyword(KeywordKind::Cdecl)),
        ("class", Keyword(KeywordKind::Class)),
        ("const", Keyword(KeywordKind::Const(DeclKind::Section))),
        ("constructor", Keyword(KeywordKind::Constructor)),
        ("contains", IdentifierOrKeyword(KeywordKind::Contains)),
        ("default", IdentifierOrKeyword(KeywordKind::Default)),
        ("delayed", IdentifierOrKeyword(KeywordKind::Delayed)),
        ("deprecated", IdentifierOrKeyword(KeywordKind::Deprecated)),
        ("destructor", Keyword(KeywordKind::Destructor)),
        ("dispid", IdentifierOrKeyword(KeywordKind::DispId)),
        ("dispinterface", Keyword(KeywordKind::DispInterface)),
        ("div", Keyword(KeywordKind::Div)),
        ("do", Keyword(KeywordKind::Do)),
        ("downto", Keyword(KeywordKind::Downto)),
        ("dynamic", IdentifierOrKeyword(KeywordKind::Dynamic)),
        ("else", Keyword(KeywordKind::Else)),
        ("end", Keyword(KeywordKind::End)),
        ("except", Keyword(KeywordKind::Except)),
        ("experimental", IdentifierOrKeyword(KeywordKind::Experimental)),
        ("export", IdentifierOrKeyword(KeywordKind::Export)),
        ("exports", Keyword(KeywordKind::Exports)),
        ("external", IdentifierOrKeyword(KeywordKind::External)),
        ("far", IdentifierOrKeyword(KeywordKind::Far)),
        ("file", Keyword(KeywordKind::File)),
        ("final", IdentifierOrKeyword(KeywordKind::Final)),
        ("finalization", Keyword(KeywordKind::Finalization)),
        ("finally", Keyword(KeywordKind::Finally)),
        ("for", Keyword(KeywordKind::For)),
        ("forward", IdentifierOrKeyword(KeywordKind::Forward)),
        ("function", Keyword(KeywordKind::Function)),
        ("goto", Keyword(KeywordKind::Goto)),
        ("helper", IdentifierOrKeyword(KeywordKind::Helper)),
        ("if", Keyword(KeywordKind::If)),
        ("implementation", Keyword(KeywordKind::Implementation)),
        ("implements", IdentifierOrKeyword(KeywordKind::Implements)),
        ("in", Keyword(KeywordKind::In(InKind::Op))),
        ("index", IdentifierOrKeyword(KeywordKind::Index)),
        ("inherited", Keyword(KeywordKind::Inherited)),
        ("initialization", Keyword(KeywordKind::Initialization)),
        ("inline", Keyword(KeywordKind::Inline)),
        ("interface", Keyword(KeywordKind::Interface)),
        ("is", Keyword(KeywordKind::Is)),
        ("label", Keyword(KeywordKind::Label)),
        ("library", Keyword(KeywordKind::Library)),
        ("local", IdentifierOrKeyword(KeywordKind::Local)),
        ("message", IdentifierOrKeyword(KeywordKind::Message)),
        ("mod", Keyword(KeywordKind::Mod)),
        ("name", IdentifierOrKeyword(KeywordKind::Name)),
        ("near", IdentifierOrKeyword(KeywordKind::Near)),
        ("nil", Keyword(KeywordKind::Nil)),
        ("nodefault", IdentifierOrKeyword(KeywordKind::NoDefault)),
        ("not", Keyword(KeywordKind::Not)),
        ("object", Keyword(KeywordKind::Object)),
        ("of", Keyword(KeywordKind::Of)),
        ("on", IdentifierOrKeyword(KeywordKind::On)),
        ("operator", IdentifierOrKeyword(KeywordKind::Operator)),
        ("or", Keyword(KeywordKind::Or)),
        ("out", IdentifierOrKeyword(KeywordKind::Out)),
        ("overload", IdentifierOrKeyword(KeywordKind::Overload)),
        ("override", IdentifierOrKeyword(KeywordKind::Override)),
        ("package", IdentifierOrKeyword(KeywordKind::Package)),
        ("packed", Keyword(KeywordKind::Packed)),
        ("pascal", IdentifierOrKeyword(KeywordKind::Pascal)),
        ("platform", IdentifierOrKeyword(KeywordKind::Platform)),
        ("private", IdentifierOrKeyword(KeywordKind::Private)),
        ("procedure", Keyword(KeywordKind::Procedure)),
        ("program", Keyword(KeywordKind::Program)),
        ("property", Keyword(KeywordKind::Property)),
        ("protected", IdentifierOrKeyword(KeywordKind::Protected)),
        ("public", IdentifierOrKeyword(KeywordKind::Public)),
        ("published", IdentifierOrKeyword(KeywordKind::Published)),
        ("raise", Keyword(KeywordKind::Raise)),
        ("read", IdentifierOrKeyword(KeywordKind::Read)),
        ("readonly", IdentifierOrKeyword(KeywordKind::ReadOnly)),
        ("record", Keyword(KeywordKind::Record)),
        ("reference", IdentifierOrKeyword(KeywordKind::Reference)),
        ("register", IdentifierOrKeyword(KeywordKind::Register)),
        ("reintroduce", IdentifierOrKeyword(KeywordKind::Reintroduce)),
        ("remove", IdentifierOrKeyword(KeywordKind::Remove)),
        ("repeat", Keyword(KeywordKind::Repeat)),
        ("requires", IdentifierOrKeyword(KeywordKind::Requires)),
        ("resident", IdentifierOrKeyword(KeywordKind::Resident)),
        ("resourcestring", Keyword(KeywordKind::ResourceString)),
        ("safecall", IdentifierOrKeyword(KeywordKind::SafeCall)),
        ("sealed", IdentifierOrKeyword(KeywordKind::Sealed)),
        ("set", Keyword(KeywordKind::SetOf)),
        ("shl", Keyword(KeywordKind::Shl)),
        ("shr", Keyword(KeywordKind::Shr)),
        ("static", IdentifierOrKeyword(KeywordKind::Static)),
        ("stdcall", IdentifierOrKeyword(KeywordKind::StdCall)),
        ("stored", IdentifierOrKeyword(KeywordKind::Stored)),
        ("strict", IdentifierOrKeyword(KeywordKind::Strict)),
        ("then", Keyword(KeywordKind::Then)),
        ("threadvar", Keyword(KeywordKind::ThreadVar)),
        ("to", Keyword(KeywordKind::To)),
        ("try", Keyword(KeywordKind::Try)),
        ("type", Keyword(KeywordKind::Type)),
        ("unit", Keyword(KeywordKind::Unit)),
        ("unsafe", IdentifierOrKeyword(KeywordKind::Unsafe)),
        ("until", Keyword(KeywordKind::Until)),
        ("uses", Keyword(KeywordKind::Uses)),
        ("var", Keyword(KeywordKind::Var(DeclKind::Section))),
        ("varargs", IdentifierOrKeyword(KeywordKind::VarArgs)),
        ("variant", IdentifierOrKeyword(KeywordKind::Variant)),
        ("virtual", IdentifierOrKeyword(KeywordKind::Virtual)),
        ("while", Keyword(KeywordKind::While)),
        ("with", Keyword(KeywordKind::With)),
        ("write", IdentifierOrKeyword(KeywordKind::Write)),
        ("writeonly", IdentifierOrKeyword(KeywordKind::WriteOnly)),
        ("xor", Keyword(KeywordKind::Xor)),
    ]
}

#[test]
fn lex_block_comment_types() {
    run_test(
        "{block comment} {.$fake compiler directive} (*star block comment*) (*.$fake compiler star directive*) {*)} (*{*) {\n    Multiline block comment\n}",
        vec![
            ("{block comment}", Comment(CommentKind::IndividualBlock)),
            ("{.$fake compiler directive}", Comment(CommentKind::InlineBlock)),
            ("(*star block comment*)", Comment(CommentKind::InlineBlock)),
            ("(*.$fake compiler star directive*)", Comment(CommentKind::InlineBlock)),
            ("{*)}", Comment(CommentKind::InlineBlock)),
            ("(*{*)", Comment(CommentKind::InlineBlock)),
            ("{\n    Multiline block comment\n}", Comment(CommentKind::MultilineBlock)),
        ],
    );
}

#[test]
fn lex_block_comments() {
    run_test(
        "{individual block}\n{individual block}\n; {inline block}",
        vec![
            ("{individual block}", Comment(CommentKind::IndividualBlock)),
            ("{individual block}", Comment(CommentKind::IndividualBlock)),
            (";", Op(OperatorKind::Semicolon)),
            ("{inline block}", Comment(CommentKind::InlineBlock)),
        ],
    );
}

#[test]
fn lex_unterminated_block_comments() {
    run_test(
        "{individual block\n// other comment\nFoo;\n\n",
        vec![("{individual block\n// other comment\nFoo;", Comment(CommentKind::MultilineBlock))],
    );
    run_test(
        "(*individual block\n// other comment\nFoo;\n\n",
        vec![("(*individual block\n// other comment\nFoo;", Comment(CommentKind::MultilineBlock))],
    );
}

#[test]
fn lex_line_comments() {
    run_test(
        "// Individual line comment 1\n// Individual line comment 2\n; // Inline line comment",
        vec![
            ("// Individual line comment 1", Comment(CommentKind::IndividualLine)),
            ("// Individual line comment 2", Comment(CommentKind::IndividualLine)),
            (";", Op(OperatorKind::Semicolon)),
            ("// Inline line comment", Comment(CommentKind::InlineLine)),
        ],
    );
}

#[test]
fn lex_compiler_directives() {
    run_test(
        "(*$message*) {$foo *) } (*$bar aa {}*)",
        vec![
            ("(*$message*)", CompilerDirective),
            ("{$foo *) }", CompilerDirective),
            ("(*$bar aa {}*)", CompilerDirective),
        ],
    );
    for (input, t) in [
        ("{$if}", ConditionalDirective(ConditionalDirectiveKind::If)),
        ("{$ifdef}", ConditionalDirective(ConditionalDirectiveKind::Ifdef)),
        ("{$ifndef}", ConditionalDirective(ConditionalDirectiveKind::Ifndef)),
        ("{$ifopt}", ConditionalDirective(ConditionalDirectiveKind::Ifopt)),
        ("{$elseif}", ConditionalDirective(ConditionalDirectiveKind::Elseif)),
        ("{$else}", ConditionalDirective(ConditionalDirectiveKind::Else)),
        ("{$ifend}", ConditionalDirective(ConditionalDirectiveKind::Ifend)),
        ("{$endif}", ConditionalDirective(ConditionalDirectiveKind::Endif)),
        ("(*$if*)", ConditionalDirective(ConditionalDirectiveKind::If)),
        ("(*$ifdef*)", ConditionalDirective(ConditionalDirectiveKind::Ifdef)),
        ("(*$ifndef*)", ConditionalDirective(ConditionalDirectiveKind::Ifndef)),
        ("(*$ifopt*)", ConditionalDirective(ConditionalDirectiveKind::Ifopt)),
        ("(*$elseif*)", ConditionalDirective(ConditionalDirectiveKind::Elseif)),
        ("(*$else*)", ConditionalDirective(ConditionalDirectiveKind::Else)),
        ("(*$ifend*)", ConditionalDirective(ConditionalDirectiveKind::Ifend)),
        ("(*$endif*)", ConditionalDirective(ConditionalDirectiveKind::Endif)),
    ] {
        run_casing_test(input, t);
    }
}

#[test]
fn lex_unterminated_compiler_directives() {
    run_test(
        "{$if\n// other comment\nFoo;\n\n",
        vec![("{$if\n// other comment\nFoo;", ConditionalDirective(ConditionalDirectiveKind::If))],
    );
    run_test(
        "(*$if\n// other comment\nFoo;\n\n",
        vec![("(*$if\n// other comment\nFoo;", ConditionalDirective(ConditionalDirectiveKind::If))],
    );
}

#[test]
fn lex_string_literals() {
    let q = "'' 'string' 'string''part2' 'ab''''cd' 'abc'#13#10 'after escaped stuff' 'a'#1'b' 'a'#1#0'b' 'a'#$017F #%010 #%0_1 #%_0 #%_ #$F7F #$F_7 #$_F #$_ #123 #_";
    run_test(
        q,
        vec![
            ("''", TextLiteral(TextLiteralKind::SingleLine)),
            ("'string'", TextLiteral(TextLiteralKind::SingleLine)),
            ("'string''part2'", TextLiteral(TextLiteralKind::SingleLine)),
            ("'ab''''cd'", TextLiteral(TextLiteralKind::SingleLine)),
            ("'abc'#13#10", TextLiteral(TextLiteralKind::SingleLine)),
            ("'after escaped stuff'", TextLiteral(TextLiteralKind::SingleLine)),
            ("'a'#1'b'", TextLiteral(TextLiteralKind::SingleLine)),
            ("'a'#1#0'b'", TextLiteral(TextLiteralKind::SingleLine)),
            ("'a'#$017F", TextLiteral(TextLiteralKind::SingleLine)),
            ("#%010", TextLiteral(TextLiteralKind::SingleLine)),
            ("#%0_1", TextLiteral(TextLiteralKind::SingleLine)),
            ("#%_0", TextLiteral(TextLiteralKind::SingleLine)),
            ("#%_", TextLiteral(TextLiteralKind::SingleLine)),
            ("#$F7F", TextLiteral(TextLiteralKind::SingleLine)),
            ("#$F_7", TextLiteral(TextLiteralKind::SingleLine)),
            ("#$_F", TextLiteral(TextLiteralKind::SingleLine)),
            ("#$_", TextLiteral(TextLiteralKind::SingleLine)),
            ("#123", TextLiteral(TextLiteralKind::SingleLine)),
            ("#_", TextLiteral(TextLiteralKind::SingleLine)),
        ],
    );
}

#[test]
fn lex_unterminated_string_literals() {
    run_test(
        "'string\n' + '';\n'a'#\n'a'##",
        vec![
            ("'string", TextLiteral(TextLiteralKind::Unterminated)),
            ("' + '';", TextLiteral(TextLiteralKind::Unterminated)),
            ("'a'#", TextLiteral(TextLiteralKind::Unterminated)),
            ("'a'#", TextLiteral(TextLiteralKind::Unterminated)),
            ("#", TextLiteral(TextLiteralKind::Unterminated)),
        ],
    );
}

#[test]
fn lex_decimal_number_literals() {
    run_test(
        "0 0.0 10 1_000 1_000.00 1_111_111.11 1.111_1 0e-1 0e+1 0E+1 0.5e+21",
        vec![
            ("0", NumberLiteral(NumberLiteralKind::Decimal)),
            ("0.0", NumberLiteral(NumberLiteralKind::Decimal)),
            ("10", NumberLiteral(NumberLiteralKind::Decimal)),
            ("1_000", NumberLiteral(NumberLiteralKind::Decimal)),
            ("1_000.00", NumberLiteral(NumberLiteralKind::Decimal)),
            ("1_111_111.11", NumberLiteral(NumberLiteralKind::Decimal)),
            ("1.111_1", NumberLiteral(NumberLiteralKind::Decimal)),
            ("0e-1", NumberLiteral(NumberLiteralKind::Decimal)),
            ("0e+1", NumberLiteral(NumberLiteralKind::Decimal)),
            ("0E+1", NumberLiteral(NumberLiteralKind::Decimal)),
            ("0.5e+21", NumberLiteral(NumberLiteralKind::Decimal)),
        ],
    );
}

#[test]
fn lex_invalid_decimal_number_literals() {
    // a `.` or `e` joins a decimal literal only when a digit follows it
    run_test(
        "0._0 0.e5 0.e-5 0.e+5 0.e-",
        vec![
            ("0", NumberLiteral(NumberLiteralKind::Decimal)),
            (".", Op(OperatorKind::Dot)),
            ("_0", Identifier),
            ("0", NumberLiteral(NumberLiteralKind::Decimal)),
            (".", Op(OperatorKind::Dot)),
            ("e5", Identifier),
            ("0", NumberLiteral(NumberLiteralKind::Decimal)),
            (".", Op(OperatorKind::Dot)),
            ("e", Identifier),
            ("-", Op(OperatorKind::Minus)),
            ("5", NumberLiteral(NumberLiteralKind::Decimal)),
            ("0", NumberLiteral(NumberLiteralKind::Decimal)),
            (".", Op(OperatorKind::Dot)),
            ("e", Identifier),
            ("+", Op(OperatorKind::Plus)),
            ("5", NumberLiteral(NumberLiteralKind::Decimal)),
            ("0", NumberLiteral(NumberLiteralKind::Decimal)),
            (".", Op(OperatorKind::Dot)),
            ("e", Identifier),
            ("-", Op(OperatorKind::Minus)),
        ],
    );
}

#[test]
fn lex_hex_number_literal() {
    run_test(
        "$ $00 $FF $0_0 $_ $_1",
        vec![
            ("$", NumberLiteral(NumberLiteralKind::Hex)),
            ("$00", NumberLiteral(NumberLiteralKind::Hex)),
            ("$FF", NumberLiteral(NumberLiteralKind::Hex)),
            ("$0_0", NumberLiteral(NumberLiteralKind::Hex)),
            ("$_", NumberLiteral(NumberLiteralKind::Hex)),
            ("$_1", NumberLiteral(NumberLiteralKind::Hex)),
        ],
    );
}

#[test]
fn lex_binary_number_literals() {
    run_test(
        "% %0 %1 %1111_0000 %_ %_1",
        vec![
            ("%", NumberLiteral(NumberLiteralKind::Binary)),
            ("%0", NumberLiteral(NumberLiteralKind::Binary)),
            ("%1", NumberLiteral(NumberLiteralKind::Binary)),
            ("%1111_0000", NumberLiteral(NumberLiteralKind::Binary)),
            ("%_", NumberLiteral(NumberLiteralKind::Binary)),
            ("%_1", NumberLiteral(NumberLiteralKind::Binary)),
        ],
    );
}

#[test]
fn lex_ampersand_integer_literals() {
    run_test(
        "&$FF &%0 &0",
        vec![
            ("&$FF", NumberLiteral(NumberLiteralKind::Hex)),
            ("&%0", NumberLiteral(NumberLiteralKind::Binary)),
            ("&0", NumberLiteral(NumberLiteralKind::Decimal)),
        ],
    );
}

#[test]
fn lex_identifiers() {
    run_test(
        "Foo _Foo _1Foo &begin &&op_Addition &&&Foo &&&&Foo &&",
        vec![
            ("Foo", Identifier),
            ("_Foo", Identifier),
            ("_1Foo", Identifier),
            ("&begin", Identifier),
            ("&&op_Addition", Identifier),
            ("&&&Foo", Identifier),
            ("&&&&Foo", Identifier),
            ("&&", Identifier),
        ],
    );
}

#[test]
fn lex_operators() {
    run_test(
        "+-*/:=,;=:<><<=>=>[](..)()^@...",
        vec![
            ("+", Op(OperatorKind::Plus)),
            ("-", Op(OperatorKind::Minus)),
            ("*", Op(OperatorKind::Star)),
            ("/", Op(OperatorKind::Slash)),
            (":=", Op(OperatorKind::Assign)),
            (",", Op(OperatorKind::Comma)),
            (";", Op(OperatorKind::Semicolon)),
            ("=", Op(OperatorKind::Equal(EqKind::Comp))),
            (":", Op(OperatorKind::Colon)),
            ("<>", Op(OperatorKind::NotEqual)),
            ("<", Op(OperatorKind::LessThan(ChevronKind::Comp))),
            ("<=", Op(OperatorKind::LessEqual)),
            (">=", Op(OperatorKind::GreaterEqual)),
            (">", Op(OperatorKind::GreaterThan(ChevronKind::Comp))),
            ("[", Op(OperatorKind::LBrack)),
            ("]", Op(OperatorKind::RBrack)),
            ("(.", Op(OperatorKind::LBrack)),
            (".)", Op(OperatorKind::RBrack)),
            ("(", Op(OperatorKind::LParen)),
            (")", Op(OperatorKind::RParen)),
            ("^", Op(OperatorKind::Caret(CaretKind::Deref))),
            ("@", Op(OperatorKind::AddressOf)),
            ("..", Op(OperatorKind::DotDot)),
            (".", Op(OperatorKind::Dot)),
        ],
    );
}

#[test]
fn lex_keywords() {
    for (input, t) in keyword_expectations() {
        run_casing_test(input, t);
    }
}

#[test]
fn lex_function_declaration() {
    run_test(
        "function Foo(Arg1:String;Arg2:Bar);stdcall;",
        vec![
            ("function", Keyword(KeywordKind::Function)),
            ("Foo", Identifier),
            ("(", Op(OperatorKind::LParen)),
            ("Arg1", Identifier),
            (":", Op(OperatorKind::Colon)),
            ("String", Identifier),
            (";", Op(OperatorKind::Semicolon)),
            ("Arg2", Identifier),
            (":", Op(OperatorKind::Colon)),
            ("Bar", Identifier),
            (")", Op(OperatorKind::RParen)),
            (";", Op(OperatorKind::Semicolon)),
            ("stdcall", IdentifierOrKeyword(KeywordKind::StdCall)),
            (";", Op(OperatorKind::Semicolon)),
        ],
    );
}

#[test]
fn lex_invalid_code() {
    run_test("? ? ?", vec![("?", Unknown), ("?", Unknown), ("?", Unknown)]);
}

#[test]
fn inline_assembly_with_end_in_label() {
    run_test(
        "asm\n@@end:\n    XOR RBX, RBX\nend\n",
        vec![
            ("asm", Keyword(KeywordKind::Asm)),
            ("@@end", Identifier),
            (":", Op(OperatorKind::Colon)),
            ("XOR", Identifier),
            ("RBX", Identifier),
            (",", Op(OperatorKind::Comma)),
            ("RBX", Identifier),
            ("end", Keyword(KeywordKind::End)),
        ],
    );
}

#[test]
fn inline_assembly_with_end_in_ifdef() {
    run_test(
        "asm\n    XOR RBX, RBX {$ifdef End}\nend\n",
        vec![
            ("asm", Keyword(KeywordKind::Asm)),
            ("XOR", Identifier),
            ("RBX", Identifier),
            (",", Op(OperatorKind::Comma)),
            ("RBX", Identifier),
            ("{$ifdef End}", ConditionalDirective(ConditionalDirectiveKind::Ifdef)),
            ("end", Keyword(KeywordKind::End)),
        ],
    );
}

#[test]
fn inline_assembly_with_end_in_comment() {
    run_test(
        "asm\n    XOR RBX, RBX // End\nend\n",
        vec![
            ("asm", Keyword(KeywordKind::Asm)),
            ("XOR", Identifier),
            ("RBX", Identifier),
            (",", Op(OperatorKind::Comma)),
            ("RBX", Identifier),
            ("// End", Comment(CommentKind::InlineLine)),
            ("end", Keyword(KeywordKind::End)),
        ],
    );
}

#[test]
fn inline_assembly_with_end_in_keyword() {
    run_test(
        "asm\n    XOR RBX, IfEnd\nend\n",
        vec![
            ("asm", Keyword(KeywordKind::Asm)),
            ("XOR", Identifier),
            ("RBX", Identifier),
            (",", Op(OperatorKind::Comma)),
            ("IfEnd", Identifier),
            ("end", Keyword(KeywordKind::End)),
        ],
    );
}

#[test]
fn inline_assembly_with_labels() {
    run_test(
        "asm\n    @@A:\n    @A:\n    @A@a:\n    @_:\n    @0:\nend\n",
        vec![
            ("asm", Keyword(KeywordKind::Asm)),
            ("@@A", Identifier),
            (":", Op(OperatorKind::Colon)),
            ("@A", Identifier),
            (":", Op(OperatorKind::Colon)),
            ("@A@a", Identifier),
            (":", Op(OperatorKind::Colon)),
            ("@_", Identifier),
            (":", Op(OperatorKind::Colon)),
            ("@0", Identifier),
            (":", Op(OperatorKind::Colon)),
            ("end", Keyword(KeywordKind::End)),
        ],
    );
}

#[test]
fn inline_assembly_with_double_quotes() {
    run_test(
        "asm\n    CMP AL,\"'\"\n    XOR RBX, RBX\nend\n",
        vec![
            ("asm", Keyword(KeywordKind::Asm)),
            ("CMP", Identifier),
            ("AL", Identifier),
            (",", Op(OperatorKind::Comma)),
            ("\"'\"", TextLiteral(TextLiteralKind::SingleLine)),
            ("XOR", Identifier),
            ("RBX", Identifier),
            (",", Op(OperatorKind::Comma)),
            ("RBX", Identifier),
            ("end", Keyword(KeywordKind::End)),
        ],
    );
}

#[test]
fn inline_assembly_with_escaped_double_quotes() {
    run_test(
        "asm\n    CMP AL,\"\\\"\"\nend\n",
        vec![
            ("asm", Keyword(KeywordKind::Asm)),
            ("CMP", Identifier),
            ("AL", Identifier),
            (",", Op(OperatorKind::Comma)),
            ("\"\\\"\"", TextLiteral(TextLiteralKind::SingleLine)),
            ("end", Keyword(KeywordKind::End)),
        ],
    );
}

#[test]
fn unterminated_asm_text_literal() {
    run_test(
        "asm\n    CMP AL,\"a\nend\n",
        vec![
            ("asm", Keyword(KeywordKind::Asm)),
            ("CMP", Identifier),
            ("AL", Identifier),
            (",", Op(OperatorKind::Comma)),
            ("\"a", TextLiteral(TextLiteralKind::Unterminated)),
            ("end", Keyword(KeywordKind::End)),
        ],
    );
}

#[test]
fn inline_assembly_with_comments() {
    run_test(
        "asm\n    MOV RAX, 0 // comment\n    XOR RBX, RBX\nend\n",
        vec![
            ("asm", Keyword(KeywordKind::Asm)),
            ("MOV", Identifier),
            ("RAX", Identifier),
            (",", Op(OperatorKind::Comma)),
            ("0", NumberLiteral(NumberLiteralKind::Decimal)),
            ("// comment", Comment(CommentKind::InlineLine)),
            ("XOR", Identifier),
            ("RBX", Identifier),
            (",", Op(OperatorKind::Comma)),
            ("RBX", Identifier),
            ("end", Keyword(KeywordKind::End)),
        ],
    );
}

#[test]
fn inline_assembly() {
    run_test(
        "asm\n    MOV RAX, 0\n    XOR RBX, RBX\nend\n",
        vec![
            ("asm", Keyword(KeywordKind::Asm)),
            ("MOV", Identifier),
            ("RAX", Identifier),
            (",", Op(OperatorKind::Comma)),
            ("0", NumberLiteral(NumberLiteralKind::Decimal)),
            ("XOR", Identifier),
            ("RBX", Identifier),
            (",", Op(OperatorKind::Comma)),
            ("RBX", Identifier),
            ("end", Keyword(KeywordKind::End)),
        ],
    );
}

#[test]
fn identifier_starting_with_asm() {
    run_test(
        "begin var asmA := 0; end;",
        vec![
            ("begin", Keyword(KeywordKind::Begin)),
            ("var", Keyword(KeywordKind::Var(DeclKind::Section))),
            ("asmA", Identifier),
            (":=", Op(OperatorKind::Assign)),
            ("0", NumberLiteral(NumberLiteralKind::Decimal)),
            (";", Op(OperatorKind::Semicolon)),
            ("end", Keyword(KeywordKind::End)),
            (";", Op(OperatorKind::Semicolon)),
        ],
    );
}

#[test]
fn inline_assembly_numeric_constants() {
    run_test(
        "asm\n    0 0O 0o 0B 0b 0H 0h $0 0AH 0FH\nend\n",
        vec![
            ("asm", Keyword(KeywordKind::Asm)),
            ("0", NumberLiteral(NumberLiteralKind::Decimal)),
            ("0O", NumberLiteral(NumberLiteralKind::Octal)),
            ("0o", NumberLiteral(NumberLiteralKind::Octal)),
            ("0B", NumberLiteral(NumberLiteralKind::Binary)),
            ("0b", NumberLiteral(NumberLiteralKind::Binary)),
            ("0H", NumberLiteral(NumberLiteralKind::Hex)),
            ("0h", NumberLiteral(NumberLiteralKind::Hex)),
            ("$0", NumberLiteral(NumberLiteralKind::Hex)),
            ("0AH", NumberLiteral(NumberLiteralKind::Hex)),
            ("0FH", NumberLiteral(NumberLiteralKind::Hex)),
            ("end", Keyword(KeywordKind::End)),
        ],
    );
}

#[test]
fn inline_assembly_invalid_numeric_constants() {
    run_test(
        "asm\n    8O 2B $0H 0A 0GH\n    $A_A 00_11B 9_5\nend\n",
        vec![
            ("asm", Keyword(KeywordKind::Asm)),
            ("8O", NumberLiteral(NumberLiteralKind::Octal)),
            ("2B", NumberLiteral(NumberLiteralKind::Binary)),
            ("$0", NumberLiteral(NumberLiteralKind::Hex)),
            ("H", Identifier),
            ("0A", NumberLiteral(NumberLiteralKind::Decimal)),
            ("0", NumberLiteral(NumberLiteralKind::Decimal)),
            ("GH", Identifier),
            ("$A_A", NumberLiteral(NumberLiteralKind::Hex)),
            ("00_11B", NumberLiteral(NumberLiteralKind::Binary)),
            ("9_5", NumberLiteral(NumberLiteralKind::Decimal)),
            ("end", Keyword(KeywordKind::End)),
        ],
    );
}

#[test]
fn unicode() {
    run_test(
        "b\u{f6}b \u{f6}b b\u{f6} \u{f6}",
        vec![
            ("b\u{f6}b", Identifier),
            ("\u{f6}b", Identifier),
            ("b\u{f6}", Identifier),
            ("\u{f6}", Identifier),
        ],
    );
    run_test(
        "\u{30af}\u{30fc}\u{30eb}\u{306a}\u{30c6}\u{30b9}\u{30c8}",
        vec![("\u{30af}\u{30fc}\u{30eb}\u{306a}\u{30c6}\u{30b9}\u{30c8}", Identifier)],
    );
    run_test("\u{9177}\u{6e2c}\u{8a66}", vec![("\u{9177}\u{6e2c}\u{8a66}", Identifier)]);
    run_test(
        "\u{ba4b}\u{c9c4}\u{d14c}\u{c2a4}\u{d2b8}",
        vec![("\u{ba4b}\u{c9c4}\u{d14c}\u{c2a4}\u{d2b8}", Identifier)],
    );
    run_test(
        "\u{1f680}\u{1f980}\u{1f680}\u{1f980}",
        vec![("\u{1f680}\u{1f980}\u{1f680}\u{1f980}", Identifier)],
    );
    run_test(
        "\u{1f132}\u{1f13e}\u{1f13e}\u{1f13b}\u{1f143}\u{1f134}\u{1f142}\u{1f143}",
        vec![(
            "\u{1f132}\u{1f13e}\u{1f13e}\u{1f13b}\u{1f143}\u{1f134}\u{1f142}\u{1f143}",
            Identifier,
        )],
    );
}

#[test]
fn unicode_fullwidth_chars() {
    run_test(
        "\u{ff43}\u{ff4f}\u{ff4f}\u{ff4c}\u{ff54}\u{ff45}\u{ff53}\u{ff54}",
        vec![("\u{ff43}\u{ff4f}\u{ff4f}\u{ff4c}\u{ff54}\u{ff45}\u{ff53}\u{ff54}", Identifier)],
    );
    run_test("a\u{3000}b", vec![("a", Identifier), ("b", Identifier)]);
    run_test(
        "\u{ff10} \u{ff11} \u{ff12} \u{ff13} \u{ff14} \u{ff15} \u{ff16} \u{ff17} \u{ff18} \u{ff19}",
        vec![
            ("\u{ff10}", Identifier),
            ("\u{ff11}", Identifier),
            ("\u{ff12}", Identifier),
            ("\u{ff13}", Identifier),
            ("\u{ff14}", Identifier),
            ("\u{ff15}", Identifier),
            ("\u{ff16}", Identifier),
            ("\u{ff17}", Identifier),
            ("\u{ff18}", Identifier),
            ("\u{ff19}", Identifier),
        ],
    );
}

#[test]
fn unicode_whitespace() {
    run_test(
        "NBSP\u{A0} EN_QUAD\u{2000} THIN_SPACE\u{2009} ZERO_WIDTH_NBSP\u{FEFF} IDEOGRAPHIC_SPACE\u{3000}",
        vec![
            ("NBSP\u{A0}", Identifier),
            ("EN_QUAD\u{2000}", Identifier),
            ("THIN_SPACE\u{2009}", Identifier),
            ("ZERO_WIDTH_NBSP\u{FEFF}", Identifier),
            ("IDEOGRAPHIC_SPACE", Identifier),
        ],
    );
}

#[test]
fn ascii_whitespace() {
    run_test(
        "NUL\x00\nSOH\x01\nSTX\x02\nETX\x03\nEOT\x04\nENQ\x05\nACK\x06\nBEL\x07\nBS\x08\nHT\x09\nLF\x0A\nVT\x0B\nFF\x0C\nCR\x0D\nSO\x0E\nSI\x0F\nDLE\x10\nDC1\x11\nDC2\x12\nDC3\x13\nDC4\x14\nNAK\x15\nSYN\x16\nETB\x17\nCAN\x18\nEM\x19\nSUB\x1A\nESC\x1B\nFS\x1C\nGS\x1D\nRS\x1E\nUS\x1F\nSpace\x20\n",
        vec![
            ("NUL", Identifier),
            ("SOH", Identifier),
            ("STX", Identifier),
            ("ETX", Identifier),
            ("EOT", Identifier),
            ("ENQ", Identifier),
            ("ACK", Identifier),
            ("BEL", Identifier),
            ("BS", Identifier),
            ("HT", Identifier),
            ("LF", Identifier),
            ("VT", Identifier),
            ("FF", Identifier),
            ("CR", Identifier),
            ("SO", Identifier),
            ("SI", Identifier),
            ("DLE", Identifier),
            ("DC1", Identifier),
            ("DC2", Identifier),
            ("DC3", Identifier),
            ("DC4", Identifier),
            ("NAK", Identifier),
            ("SYN", Identifier),
            ("ETB", Identifier),
            ("CAN", Identifier),
            ("EM", Identifier),
            ("SUB", Identifier),
            ("ESC", Identifier),
            ("FS", Identifier),
            ("GS", Identifier),
            ("RS", Identifier),
            ("US", Identifier),
            ("Space", Identifier),
        ],
    );
}

#[test]
fn lex_multiline_string_literals() {
    run_test(
        "x := '''\n    abc\n    ''';",
        vec![
            ("x", Identifier),
            (":=", Op(OperatorKind::Assign)),
            ("'''\n    abc\n    '''", TextLiteral(TextLiteralKind::MultiLine)),
            (";", Op(OperatorKind::Semicolon)),
        ],
    );
    run_test(
        "'''\nnever closed",
        vec![("'''\nnever closed", TextLiteral(TextLiteralKind::Unterminated))],
    );
}
