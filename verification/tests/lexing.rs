use gemc::lexer::Lexer;
use gemc::token::Token;

fn lex(s: &str) -> Result<Vec<Token>, gemc::error::LexError> {
    let mut lexer = Lexer::new(String::from(s));
    lexer.tokenize()
}

#[test]
fn lex_scene_header() {
    let toks = lex("Root : Gem { }").unwrap();
    assert_eq!(
        toks,
        vec![
            Token::Ident(String::from("Root")),
            Token::Colon,
            Token::Ident(String::from("Gem")),
            Token::LBrace,
            Token::RBrace,
        ]
    );
}

#[test]
fn lex_keywords_and_literals() {
    let toks = lex("on spawn extend fn true false other 42 3.14").unwrap();
    assert_eq!(
        toks,
        vec![
            Token::On,
            Token::Spawn,
            Token::Extend,
            Token::Fn,
            Token::Bool(true),
            Token::Bool(false),
            Token::Ident(String::from("other")),
            Token::Integer(42),
            Token::Float(String::from("3.14")),
        ]
    );
}

#[test]
fn lex_operators() {
    let toks = lex("+ - * / = == ! != < > <= >= && || , : . ; ( ) #").unwrap();
    assert_eq!(
        toks,
        vec![
            Token::Plus,
            Token::Minus,
            Token::Multiply,
            Token::Divide,
            Token::Eq,
            Token::EqEq,
            Token::Not,
            Token::NotEq,
            Token::Less,
            Token::Greater,
            Token::LessEq,
            Token::GreaterEq,
            Token::And,
            Token::Or,
            Token::Comma,
            Token::Colon,
            Token::Dot,
            Token::Semi,
            Token::LParen,
            Token::RParen,
            Token::Hash,
        ]
    );
}

#[test]
fn lex_dot_disambiguation() {
    // a dot only joins a number when a digit follows directly
    let toks = lex("1.foo").unwrap();
    assert_eq!(
        toks,
        vec![
            Token::Integer(1),
            Token::Dot,
            Token::Ident(String::from("foo")),
        ]
    );
    let toks = lex("1.5.x").unwrap();
    assert_eq!(
        toks,
        vec![
            Token::Float(String::from("1.5")),
            Token::Dot,
            Token::Ident(String::from("x")),
        ]
    );
}

#[test]
fn lex_comments() {
    let toks = lex("1 // rest of line\n2 /# between #/ 3").unwrap();
    assert_eq!(
        toks,
        vec![Token::Integer(1), Token::Integer(2), Token::Integer(3)]
    );
    let toks = lex("/// doc text  \nnext").unwrap();
    assert_eq!(
        toks,
        vec![
            Token::DocComment(String::from("doc text")),
            Token::Ident(String::from("next")),
        ]
    );
}

#[test]
fn lex_string_escapes() {
    let toks = lex("\"a\\nb\\t\\\\\\\"q\"").unwrap();
    assert_eq!(toks, vec![Token::String(String::from("a\nb\t\\\"q"))]);
    // unknown escapes keep the backslash
    let toks = lex("\"a\\zb\"").unwrap();
    assert_eq!(toks, vec![Token::String(String::from("a\\zb"))]);
}

#[test]
fn lex_unterminated_string_reports_opening_line() {
    let err = lex("Root : Gem {\n  name: \"abc").unwrap_err();
    assert_eq!(err.message, "Unterminated string literal");
    assert_eq!(err.line, 2);
}

#[test]
fn lex_unterminated_multiline_comment() {
    let err = lex("/# never closed").unwrap_err();
    assert_eq!(err.message, "Unterminated multiline comment (/# ... #/)");
}

#[test]
fn lex_single_ampersand_and_pipe() {
    assert_eq!(lex("&").unwrap_err().message, "Expected '&&'");
    assert_eq!(lex("|").unwrap_err().message, "Expected '||'");
}

#[test]
fn lex_integer_overflow() {
    let err = lex("99999999999999999999").unwrap_err();
    assert_eq!(err.message, "Invalid integer: 99999999999999999999");
    // the largest value that still fits is accepted
    let toks = lex("9223372036854775807").unwrap();
    assert_eq!(toks, vec![Token::Integer(9223372036854775807)]);
}

#[test]
fn lex_unexpected_character() {
    let err = lex("@").unwrap_err();
    assert_eq!(err.message, "Unexpected character: '@'");
    assert_eq!(err.line, 1);
    assert_eq!(err.column, 1);
    assert_eq!(
        err.describe(),
        "LexError, Unexpected character: '@', Line: 1, Column: 1"
    );
}

#[test]
fn token_describe_text() {
    assert_eq!(Token::Colon.describe(), "Colon");
    assert_eq!(Token::Ident(String::from("abc")).describe(), "Ident(\"abc\")");
    assert_eq!(Token::Integer(-5).describe(), "Integer(-5)");
    assert_eq!(Token::Bool(true).describe(), "Bool(true)");
}
