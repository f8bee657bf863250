use pasfmt_core::directive_tree::DirectiveTree;
use pasfmt_core::lang::{Token, TokenType};
use pasfmt_core::lexer::DelphiLexer;

fn token_indices_to_string(tokens: &[Token], indices: &[usize]) -> String {
    let mut result: Vec<u8> = Vec::new();
    for &index in indices {
        if let Some(token) = tokens.get(index) {
            result.extend_from_slice(token.get_leading_whitespace());
            result.extend_from_slice(token.get_content());
        }
    }
    String::from_utf8(result).unwrap()
}

fn pass_strings(input: &str) -> Vec<String> {
    let tokens = DelphiLexer {}.lex(input.as_bytes());
    let tree = DirectiveTree::parse(&tokens);
    let mut iter = tree.passes(&tokens);
    let mut out = Vec::new();
    while let Some(pass) = iter.next_pass() {
        out.push(token_indices_to_string(&tokens, &pass));
    }
    out
}

fn check(input: String, expected: &[&str]) {
    let got = pass_strings(&input);
    assert_eq!(got, expected.iter().map(|s| s.to_string()).collect::<Vec<_>>(), "input: {input}");
}

const IF: &str = "{$ifdef}";
const ELSEIF: &str = "{$elseif}";
const ELSE: &str = "{$else}";
const END: &str = "{$endif}";

#[test]
fn token_views_no_directives() {
    check("foo(a, b, c);".to_owned(), &["foo(a, b, c);"]);
}

#[test]
fn token_views_if_around_all() {
    check(format!("{IF}foo(a, b, c);{END}"), &["foo(a, b, c);"]);
}

#[test]
fn token_views_if_else_around_all() {
    check(
        format!("{IF}foo(a, b, c){ELSEIF}bar(d, e, f){END}"),
        &["foo(a, b, c)", "bar(d, e, f)"],
    );
}

#[test]
fn token_views_if_else_else_around_all() {
    check(
        format!("{IF}foo(a, b, c){ELSEIF}bar(d, e, f){ELSEIF}baz(g, h, i){END}"),
        &["foo(a, b, c)", "bar(d, e, f)", "baz(g, h, i)"],
    );
}

#[test]
fn token_views_if_internal() {
    check(format!("foo({IF}a{END});"), &["foo(a);"]);
}

#[test]
fn token_views_if_else_internal() {
    check(format!("foo({IF}a{ELSEIF}b{END});"), &["foo(a);", "foo(b);"]);
}

#[test]
fn token_views_if_else_else_internal() {
    check(
        format!("foo({IF}a{ELSEIF}b{ELSEIF}c{END});"),
        &["foo(a);", "foo(b);", "foo(c);"],
    );
}

#[test]
fn token_views_max_branch() {
    check(
        format!("foo({IF}a{ELSEIF}b{END}, {IF}d{ELSEIF}e{ELSEIF}f{END});"),
        &["foo(a,d);", "foo(b,e);", "foo(b,f);"],
    );
}

#[test]
fn token_views_first_branch_explored_only_once() {
    // each flat section is walked once when it is not the last branch: there
    // is no pass joining the first branches of both groups
    check(
        format!("{IF}\n  {IF}\n  {ELSE}a\n  {END}\n{END}\n\n{IF}b\n{ELSE}c\n{END}"),
        &["b", "ac"],
    );
}

#[test]
fn token_views_unmatched_end() {
    check(
        format!(
            "{END}\n{ELSE}\n\n{IF}a\n{ELSE}b\n{END}\n\n{END}\n{ELSE}\n{END}\n\n{IF}c\n{ELSE}d\n{END}\n\n{END}"
        ),
        &["ac", "bd"],
    );
}

#[test]
fn token_views_manual_elseif() {
    let mut input = String::new();
    let letters = ["a", "b", "c", "d", "e"];
    for (i, l) in letters.iter().enumerate() {
        if i == letters.len() - 1 {
            input.push_str(&format!("{l}\n"));
        } else {
            input.push_str(&format!("{IF}{l}\n{ELSE}"));
        }
    }
    for _ in 0..letters.len() - 1 {
        input.push_str(END);
    }
    let got = pass_strings(&input);
    assert_eq!(got.len(), letters.len());
    for (i, l) in letters.iter().enumerate() {
        assert!(got[i].contains(l), "pass {i} should contain {l}: {:?}", got);
    }
}

#[test]
fn passes_are_strictly_increasing() {
    let input = format!("foo({IF}a{ELSEIF}b{END}, {IF}d{ELSEIF}e{ELSEIF}f{END});");
    let tokens = DelphiLexer {}.lex(input.as_bytes());
    let tree = DirectiveTree::parse(&tokens);
    let mut iter = tree.passes(&tokens);
    while let Some(pass) = iter.next_pass() {
        for w in pass.windows(2) {
            assert!(w[0] < w[1], "pass not strictly increasing: {:?}", pass);
        }
    }
}

#[test]
fn passes_hold_no_conditional_directives() {
    let input = format!("foo({IF}a{ELSEIF}b{END});");
    let tokens = DelphiLexer {}.lex(input.as_bytes());
    let tree = DirectiveTree::parse(&tokens);
    let mut iter = tree.passes(&tokens);
    while let Some(pass) = iter.next_pass() {
        for &i in &pass {
            assert!(!matches!(
                tokens[i].get_token_type(),
                TokenType::ConditionalDirective(_)
            ));
        }
    }
}

#[test]
fn every_plain_token_reaches_some_pass() {
    let input = format!("foo({IF}a{ELSEIF}b{ELSEIF}c{END}, {IF}d{ELSEIF}e{END});");
    let tokens = DelphiLexer {}.lex(input.as_bytes());
    let tree = DirectiveTree::parse(&tokens);
    let mut iter = tree.passes(&tokens);
    let mut seen = vec![false; tokens.len()];
    while let Some(pass) = iter.next_pass() {
        for &i in &pass {
            seen[i] = true;
        }
    }
    for (i, token) in tokens.iter().enumerate() {
        if !matches!(
            token.get_token_type(),
            TokenType::ConditionalDirective(_) | TokenType::Eof
        ) {
            assert!(seen[i], "token {i} never appeared in a pass");
        }
    }
}

#[test]
fn single_pass_for_directive_free_file() {
    // a file without conditional directives yields exactly one pass holding
    // every token index in order
    let tokens = DelphiLexer {}.lex(b"a b c");
    let n = tokens.len();
    let tree = DirectiveTree::parse(&tokens);
    let mut iter = tree.passes(&tokens);
    let first = iter.next_pass().expect("one pass is owed");
    assert_eq!(first, (0..n).collect::<Vec<_>>());
    assert!(iter.next_pass().is_none());
}
