use postfix::lexer::tokenize;
use postfix::token::Token;

fn lex(program: &str) -> Vec<Token> {
    match tokenize(program) {
        Ok(tokens) => tokens,
        Err(e) => panic!("lexing failed at {}", e.position),
    }
}

fn expect_number(tok: &Token, negative: bool, digits: &str) {
    match tok {
        Token::Number(lit) => {
            assert_eq!(lit.negative, negative);
            assert_eq!(lit.digits, digits);
        }
        _ => panic!("expected a number token"),
    }
}

fn expect_identifier(tok: &Token, name: &str) {
    match tok {
        Token::Identifier(id) => assert_eq!(id, name),
        _ => panic!("expected an identifier token"),
    }
}

#[test]
fn numbers_keep_their_text() {
    let toks = lex("5 3.14 .5 -0 -2.5 -.5");
    assert_eq!(toks.len(), 6);
    expect_number(&toks[0], false, "5");
    expect_number(&toks[1], false, "3.14");
    expect_number(&toks[2], false, ".5");
    expect_number(&toks[3], true, "0");
    expect_number(&toks[4], true, "2.5");
    expect_number(&toks[5], true, ".5");
}

#[test]
fn markers_lex_alone() {
    let toks = lex("$:");
    assert_eq!(toks.len(), 2);
    assert!(matches!(toks[0], Token::ValueOf));
    assert!(matches!(toks[1], Token::Assign));
}

#[test]
fn bare_minus_is_an_identifier() {
    let toks = lex("5 - 3");
    assert_eq!(toks.len(), 3);
    expect_number(&toks[0], false, "5");
    expect_identifier(&toks[1], "-");
    expect_number(&toks[2], false, "3");
}

#[test]
fn identifiers_take_their_longest_run() {
    let toks = lex("a-b sqrt <=");
    assert_eq!(toks.len(), 3);
    expect_identifier(&toks[0], "a-b");
    expect_identifier(&toks[1], "sqrt");
    expect_identifier(&toks[2], "<=");
}

#[test]
fn identifier_stops_at_digit_and_marker() {
    let toks = lex("abc5$x");
    assert_eq!(toks.len(), 4);
    expect_identifier(&toks[0], "abc");
    expect_number(&toks[1], false, "5");
    assert!(matches!(toks[2], Token::ValueOf));
    expect_identifier(&toks[3], "x");
}

#[test]
fn second_decimal_point_starts_a_new_number() {
    let toks = lex("1.2.3");
    assert_eq!(toks.len(), 2);
    expect_number(&toks[0], false, "1.2");
    expect_number(&toks[1], false, ".3");
}

#[test]
fn trailing_dot_is_the_print_builtin() {
    let toks = lex("12.");
    assert_eq!(toks.len(), 2);
    expect_number(&toks[0], false, "12");
    expect_identifier(&toks[1], ".");
}

#[test]
fn double_dot_lexes_as_identifier() {
    let toks = lex("..2");
    assert_eq!(toks.len(), 2);
    expect_identifier(&toks[0], "..");
    expect_number(&toks[1], false, "2");
}

#[test]
fn unicode_identifiers_lex() {
    let toks = lex("café π");
    assert_eq!(toks.len(), 2);
    expect_identifier(&toks[0], "café");
    expect_identifier(&toks[1], "π");
}

#[test]
fn empty_text_has_no_tokens() {
    assert_eq!(lex("").len(), 0);
    assert_eq!(lex(" \t\n").len(), 0);
}

#[test]
fn render_shows_each_kind() {
    let toks = lex("-5 x $ :");
    assert_eq!(toks[0].render(), "Number: -5");
    assert_eq!(toks[1].render(), "Identifier: x");
    assert_eq!(toks[2].render(), "$");
    assert_eq!(toks[3].render(), ":");
}
