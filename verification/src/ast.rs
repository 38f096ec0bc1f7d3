use vstd::prelude::*;
use crate::token::Token;

verus! {

/// An expression: a binary tree whose leaves are 64-bit signed integer
/// literals and whose internal nodes own a left child, an operator token,
/// and a right child. Each node owns its children exclusively: the tree is
/// strict, with no sharing and no cycles.
#[derive(Debug, PartialEq)]
pub enum Expr {
    Num(i64),
    BinOp(Box<Expr>, Token, Box<Expr>),
}

/// A statement. The language has exactly one form: `print <expr> ;`.
#[derive(Debug, PartialEq)]
pub enum Stmt {
    Print(Expr),
}

/// A program: its statements in source order, which is also the order in
/// which code is emitted for them.
#[derive(Debug, PartialEq)]
pub struct Program {
    pub stmts: Vec<Stmt>,
}

} // verus!
