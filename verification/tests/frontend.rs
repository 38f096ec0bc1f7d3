use minic::ast::{Expr, Stmt};
use minic::lexer::Lexer;
use minic::numfmt::{i64_to_dec, u64_to_dec};
use minic::parser::Parser;
use minic::token::{CompileError, Token};

fn tokens_of(src: &str) -> Vec<Result<Token, CompileError>> {
    let mut lexer = Lexer::new(src.to_string());
    let mut out = Vec::new();
    loop {
        let t = lexer.next_token();
        let done = matches!(t, Ok(Token::EOF) | Err(_));
        out.push(t);
        if done {
            return out;
        }
    }
}

#[test]
fn lexes_a_full_statement() {
    assert_eq!(
        tokens_of("print 2+3;"),
        vec![
            Ok(Token::Print),
            Ok(Token::Int(2)),
            Ok(Token::Plus),
            Ok(Token::Int(3)),
            Ok(Token::Semi),
            Ok(Token::EOF),
        ]
    );
}

#[test]
fn lexes_all_punctuation() {
    assert_eq!(
        tokens_of("( ) * / - ;"),
        vec![
            Ok(Token::LParen),
            Ok(Token::RParen),
            Ok(Token::Mul),
            Ok(Token::Div),
            Ok(Token::Minus),
            Ok(Token::Semi),
            Ok(Token::EOF),
        ]
    );
}

#[test]
fn skips_whitespace_runs() {
    assert_eq!(tokens_of(" \t\n\r  42"), vec![Ok(Token::Int(42)), Ok(Token::EOF)]);
}

#[test]
fn end_of_input_repeats() {
    let mut lexer = Lexer::new(String::new());
    assert_eq!(lexer.next_token(), Ok(Token::EOF));
    assert_eq!(lexer.next_token(), Ok(Token::EOF));
    assert_eq!(lexer.next_token(), Ok(Token::EOF));
}

#[test]
fn maximal_digit_run_with_leading_zeros() {
    assert_eq!(tokens_of("007"), vec![Ok(Token::Int(7)), Ok(Token::EOF)]);
}

#[test]
fn invalid_character_stops_the_stream() {
    assert_eq!(
        tokens_of("1 ? 2"),
        vec![Ok(Token::Int(1)), Err(CompileError::InvalidCharacter)]
    );
}

#[test]
fn keyword_must_match_exactly() {
    assert_eq!(tokens_of("pri 2"), vec![Err(CompileError::MalformedKeyword)]);
    assert_eq!(tokens_of("p"), vec![Err(CompileError::MalformedKeyword)]);
}

#[test]
fn keyword_prefix_of_longer_word_is_accepted() {
    // the lexer matches the five keyword characters and no more
    assert_eq!(
        tokens_of("printer"),
        vec![Ok(Token::Print), Err(CompileError::InvalidCharacter)]
    );
}

#[test]
fn parse_round_trip_of_sum() {
    let mut parser = Parser::new(Lexer::new("print 2+3;".to_string())).unwrap();
    let program = parser.program().unwrap();
    assert_eq!(program.stmts.len(), 1);
    let Stmt::Print(e) = &program.stmts[0];
    match e {
        Expr::BinOp(l, Token::Plus, r) => {
            assert!(matches!(**l, Expr::Num(2)));
            assert!(matches!(**r, Expr::Num(3)));
        },
        _ => panic!("expected an addition node"),
    }
}

#[test]
fn parse_is_left_associative() {
    let mut parser = Parser::new(Lexer::new("print 1-2-3;".to_string())).unwrap();
    let program = parser.program().unwrap();
    let Stmt::Print(e) = &program.stmts[0];
    match e {
        Expr::BinOp(l, Token::Minus, r) => {
            assert!(matches!(**r, Expr::Num(3)));
            match &**l {
                Expr::BinOp(ll, Token::Minus, lr) => {
                    assert!(matches!(**ll, Expr::Num(1)));
                    assert!(matches!(**lr, Expr::Num(2)));
                },
                _ => panic!("expected a nested subtraction"),
            }
        },
        _ => panic!("expected a subtraction node"),
    }
}

#[test]
fn parse_precedence_shapes_the_tree() {
    let mut parser = Parser::new(Lexer::new("print 2+3*4;".to_string())).unwrap();
    let program = parser.program().unwrap();
    let Stmt::Print(e) = &program.stmts[0];
    match e {
        Expr::BinOp(l, Token::Plus, r) => {
            assert!(matches!(**l, Expr::Num(2)));
            match &**r {
                Expr::BinOp(rl, Token::Mul, rr) => {
                    assert!(matches!(**rl, Expr::Num(3)));
                    assert!(matches!(**rr, Expr::Num(4)));
                },
                _ => panic!("expected a multiplication on the right"),
            }
        },
        _ => panic!("expected an addition node"),
    }
}

#[test]
fn parse_empty_input_yields_no_statements() {
    let mut parser = Parser::new(Lexer::new(String::new())).unwrap();
    let program = parser.program().unwrap();
    assert_eq!(program.stmts.len(), 0);
}

#[test]
fn unclosed_parenthesis_is_rejected() {
    let mut parser = Parser::new(Lexer::new("print (1+2;".to_string())).unwrap();
    assert_eq!(parser.program(), Err(CompileError::UnexpectedToken));
}

#[test]
fn missing_operand_is_rejected() {
    let mut parser = Parser::new(Lexer::new("print 1+;".to_string())).unwrap();
    assert_eq!(parser.program(), Err(CompileError::UnexpectedToken));
}

#[test]
fn unsigned_decimal_rendering() {
    assert_eq!(u64_to_dec(0), "0");
    assert_eq!(u64_to_dec(9), "9");
    assert_eq!(u64_to_dec(10), "10");
    assert_eq!(u64_to_dec(18446744073709551615), "18446744073709551615");
}

#[test]
fn signed_decimal_rendering() {
    assert_eq!(i64_to_dec(0), "0");
    assert_eq!(i64_to_dec(42), "42");
    assert_eq!(i64_to_dec(-7), "-7");
    assert_eq!(i64_to_dec(i64::MAX), "9223372036854775807");
    assert_eq!(i64_to_dec(i64::MIN), "-9223372036854775808");
}

#[test]
fn unicode_whitespace_is_skipped() {
    // no-break space and ideographic space carry the White_Space property
    assert_eq!(
        tokens_of("\u{a0}7\u{3000}+ 1"),
        vec![Ok(Token::Int(7)), Ok(Token::Plus), Ok(Token::Int(1)), Ok(Token::EOF)]
    );
}

#[test]
fn digit_run_is_maximal() {
    assert_eq!(
        tokens_of("12+3"),
        vec![Ok(Token::Int(12)), Ok(Token::Plus), Ok(Token::Int(3)), Ok(Token::EOF)]
    );
}
