use minic::ast::Expr;
use minic::codegen::CodeGen;
use minic::compile;
use minic::token::{CompileError, Token};

/// Executes the text lines the code generator emits for expressions: the
/// four registers the code touches, the scratch stack, and the values handed
/// to the print routine.
struct Interp {
    rax: i64,
    rbx: i64,
    rcx: i64,
    rdx: i64,
    stack: Vec<i64>,
    printed: Vec<i64>,
}

impl Interp {
    fn new() -> Interp {
        Interp { rax: 0, rbx: 0, rcx: 0, rdx: 0, stack: Vec::new(), printed: Vec::new() }
    }

    fn exec_line(&mut self, line: &str) {
        if let Some(n) = line.strip_prefix("    mov rax, ") {
            if n == "rbx" {
                self.rax = self.rbx;
            } else {
                self.rax = n.parse().unwrap();
            }
        } else if line == "    push rax" {
            self.stack.push(self.rax);
        } else if line == "    pop rbx" {
            self.rbx = self.stack.pop().unwrap();
        } else if line == "    add rax, rbx" {
            self.rax = self.rax.wrapping_add(self.rbx);
        } else if line == "    sub rbx, rax" {
            self.rbx = self.rbx.wrapping_sub(self.rax);
        } else if line == "    imul rax, rbx" {
            self.rax = self.rax.wrapping_mul(self.rbx);
        } else if line == "    mov rdx, 0" {
            self.rdx = 0;
        } else if line == "    mov rcx, rax" {
            self.rcx = self.rax;
        } else if line == "    idiv rcx" {
            // the dividend is rdx:rax read as a signed 128-bit value
            let wide = ((self.rdx as u64 as u128) << 64) | (self.rax as u64 as u128);
            let dividend = wide as i128;
            let divisor = self.rcx as i128;
            self.rax = (dividend / divisor) as i64;
            self.rdx = (dividend % divisor) as i64;
        } else if line == "    mov rdi, rax" {
            // the argument register; "call print_int" records it
        } else if line == "    call print_int" {
            self.printed.push(self.rax);
        } else {
            panic!("unexpected line: {}", line);
        }
    }
}

/// Runs the statement code between the `_start` label and the exit sequence
/// of a full generated program, returning the printed values.
fn run_program_text(code_text: &str) -> Vec<i64> {
    let lines: Vec<&str> = code_text.lines().collect();
    let start = lines.iter().position(|l| *l == "_start:").unwrap() + 1;
    let end = lines[start..].iter().position(|l| *l == "    mov rax, 60").unwrap() + start;
    let mut interp = Interp::new();
    for line in &lines[start..end] {
        interp.exec_line(line);
    }
    interp.printed
}

fn run_source(src: &str) -> Vec<i64> {
    let code_text = compile(src.to_string()).unwrap();
    run_program_text(&code_text)
}

#[test]
fn precedence_parentheses() {
    assert_eq!(run_source("print (1+2)*3;"), vec![9]);
}

#[test]
fn precedence_mul_binds_tighter() {
    assert_eq!(run_source("print 2+3*4;"), vec![14]);
}

#[test]
fn division_truncates_toward_zero() {
    assert_eq!(run_source("print 7/2;"), vec![3]);
}

#[test]
fn left_associative_subtraction() {
    assert_eq!(run_source("print 10-2-3;"), vec![5]);
}

#[test]
fn left_associative_division() {
    assert_eq!(run_source("print 20/2/5;"), vec![2]);
}

#[test]
fn precedence_sum_of_products() {
    assert_eq!(run_source("print 2*3+4*5;"), vec![26]);
}

#[test]
fn parentheses_override_precedence() {
    assert_eq!(run_source("print 2*(3+4);"), vec![14]);
}

#[test]
fn nested_parentheses() {
    assert_eq!(run_source("print ((((5))));"), vec![5]);
}

#[test]
fn several_statements_in_order() {
    assert_eq!(run_source("print 1; print 2+2; print 6*7;"), vec![1, 4, 42]);
}

#[test]
fn determinism_byte_identical_output() {
    let a = compile("print (1+2)*3; print 7/2;".to_string()).unwrap();
    let b = compile("print (1+2)*3; print 7/2;".to_string()).unwrap();
    assert_eq!(a, b);
}

#[test]
fn empty_source_compiles_to_fixed_frame() {
    let code_text = compile(String::new()).unwrap();
    assert!(code_text.starts_with("global _start\n"));
    assert!(code_text.contains("_start:\n    mov rax, 60\n"));
    assert!(code_text.ends_with("newline db 10\n"));
}

#[test]
fn single_literal_program_text() {
    let code_text = compile("print 1;".to_string()).unwrap();
    assert!(code_text.contains("_start:\n    mov rax, 1\n    mov rdi, rax\n    call print_int\n"));
    assert!(code_text.contains("print_int:\n"));
    assert!(code_text.contains("buffer resb 21\n"));
}

/// Runs the lowering of one operator node built directly over two literals
/// and returns the accumulator value its code computes.
fn run_binop(a: i64, op: Token, b: i64) -> i64 {
    let e = Expr::BinOp(Box::new(Expr::Num(a)), op, Box::new(Expr::Num(b)));
    let mut gen = CodeGen::new();
    gen.gen_expr(&e);
    let mut interp = Interp::new();
    for line in gen.output.lines() {
        interp.exec_line(line);
    }
    interp.rax
}

#[test]
fn arithmetic_fidelity_sampled_pairs() {
    let samples: [i64; 8] = [-1234, -7, -1, 0, 1, 2, 13, 100000];
    for &a in &samples {
        for &b in &samples {
            assert_eq!(run_binop(a, Token::Plus, b), a + b);
            assert_eq!(run_binop(a, Token::Minus, b), a - b);
            assert_eq!(run_binop(a, Token::Mul, b), a * b);
            if b != 0 && a >= 0 {
                assert_eq!(run_binop(a, Token::Div, b), a / b);
            }
        }
    }
}

#[test]
fn missing_trailing_semicolon_is_rejected() {
    assert_eq!(compile("print 2+3".to_string()), Err(CompileError::UnexpectedToken));
}

#[test]
fn unknown_character_is_rejected() {
    assert_eq!(compile("print 2 + @;".to_string()), Err(CompileError::InvalidCharacter));
}

#[test]
fn literal_overflow_is_rejected() {
    assert_eq!(
        compile("print 99999999999999999999;".to_string()),
        Err(CompileError::LiteralOverflow)
    );
}

#[test]
fn largest_literal_is_accepted() {
    assert_eq!(run_source("print 9223372036854775807;"), vec![i64::MAX]);
}

#[test]
fn smallest_overflowing_literal_is_rejected() {
    assert_eq!(
        compile("print 9223372036854775808;".to_string()),
        Err(CompileError::LiteralOverflow)
    );
}

#[test]
fn malformed_keyword_is_rejected() {
    assert_eq!(compile("prin 2;".to_string()), Err(CompileError::MalformedKeyword));
}

#[test]
fn statement_must_start_with_print() {
    assert_eq!(compile("2+2;".to_string()), Err(CompileError::UnexpectedToken));
}
