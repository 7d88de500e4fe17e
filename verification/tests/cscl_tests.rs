use icn_core::cscl::lexer::Lexer;
use icn_core::cscl::parser::{compile_source, CSCLCompiler};
use icn_core::cscl::token::{Opcode, Token};

#[test]
fn test_lexer() {
    let input = "function test(x, y) { return x + y; }";
    let mut lexer = Lexer::new(input);
    let tokens = lexer.tokens();

    assert_eq!(
        tokens,
        vec![
            Token::Function,
            Token::Identifier("test".to_string()),
            Token::LParen,
            Token::Identifier("x".to_string()),
            Token::Comma,
            Token::Identifier("y".to_string()),
            Token::RParen,
            Token::LBrace,
            Token::Return,
            Token::Identifier("x".to_string()),
            Token::Plus,
            Token::Identifier("y".to_string()),
            Token::Semicolon,
            Token::RBrace,
        ]
    );
}

#[test]
fn test_compiler() {
    let input = "x = 5 + 3; vote(\"proposal1\", true);";
    let mut compiler = CSCLCompiler::new(input);
    let opcodes = compiler.compile();

    assert!(opcodes.len() > 0);
}

#[test]
fn compiler_emits_store_and_vote() {
    let opcodes = compile_source("x = 5 + 3; vote(\"proposal1\", true);").unwrap();
    assert_eq!(opcodes, vec![Opcode::Store("x".to_string()), Opcode::Vote("proposal1".to_string())]);
}

#[test]
fn lexer_reads_numbers_strings_and_operators() {
    let mut lexer = Lexer::new("a >= 10 && b != 2.5 || !\"hi\"");
    let tokens = lexer.tokens();
    assert_eq!(
        tokens,
        vec![
            Token::Identifier("a".to_string()),
            Token::GreaterThanEquals,
            Token::Integer(10),
            Token::And,
            Token::Identifier("b".to_string()),
            Token::NotEquals,
            Token::Float("2.5".to_string()),
            Token::Or,
            Token::Not,
            Token::String("hi".to_string()),
        ]
    );
}

#[test]
fn lexer_reads_keywords() {
    let mut lexer = Lexer::new("if else while return emit true false");
    assert_eq!(
        lexer.tokens(),
        vec![
            Token::If,
            Token::Else,
            Token::While,
            Token::Return,
            Token::Emit,
            Token::True,
            Token::False,
        ]
    );
}

#[test]
fn compile_source_refuses_what_does_not_compile() {
    assert_eq!(compile_source("vote(1, true);"), None);
}

#[test]
fn compile_source_of_empty_text_is_empty() {
    assert_eq!(compile_source(""), Some(vec![]));
}
