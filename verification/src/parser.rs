use vstd::prelude::*;
use crate::ast::{Expr, Program, Stmt};
use crate::lexer::{digit_run_end, is_digit_char, is_ws_char, spec_next_token, spec_skip_ws, Lexer};
use crate::token::{kind_matches, token_kind_eq, CompileError, Token};

verus! {

/// The token stream a lexer state yields: each element a token or the
/// lexical error at which the stream ends.
pub type TokenStream = Seq<Result<Token, CompileError>>;

pub proof fn lemma_skip_ws_bounds(s: Seq<char>, pos: nat)
    requires
        pos <= s.len(),
    ensures
        pos <= spec_skip_ws(s, pos) <= s.len(),
    decreases s.len() - pos,
{
    if pos < s.len() && is_ws_char(s[pos as int]) {
        lemma_skip_ws_bounds(s, pos + 1);
    }
}

pub proof fn lemma_digit_run_bounds(s: Seq<char>, pos: nat)
    requires
        pos <= s.len(),
    ensures
        pos <= digit_run_end(s, pos) <= s.len(),
        pos < s.len() && is_digit_char(s[pos as int]) ==> digit_run_end(s, pos) >= pos + 1,
    decreases s.len() - pos,
{
    if pos < s.len() && is_digit_char(s[pos as int]) {
        lemma_digit_run_bounds(s, pos + 1);
    }
}

/// Where the next token ends: never before `pos`, never past the input, past
/// `pos` whenever an ordinary token was read, and exactly at the end of the
/// input for `EOF`.
pub proof fn lemma_next_token_bounds(s: Seq<char>, pos: nat)
    requires
        pos <= s.len(),
    ensures
        ({
            let r = spec_next_token(s, pos).0;
            let p2 = spec_next_token(s, pos).1;
            &&& pos <= p2 <= s.len()
            &&& (r == Ok::<Token, CompileError>(Token::EOF) ==> p2 == s.len())
            &&& (r is Ok && r != Ok::<Token, CompileError>(Token::EOF) ==> p2 > pos)
        }),
{
    lemma_skip_ws_bounds(s, pos);
    let p = spec_skip_ws(s, pos);
    if p < s.len() {
        let c = s[p as int];
        if is_digit_char(c) {
            lemma_digit_run_bounds(s, p);
        }
    }
}

/// The stream of tokens from `pos` to the end of the input: ordinary tokens
/// in order, closed by the `EOF` sentinel or by the first lexical error.
pub open spec fn lex_from(s: Seq<char>, pos: nat) -> TokenStream
    decreases s.len() - pos,
    when pos <= s.len()
{
    let r = spec_next_token(s, pos).0;
    let p2 = spec_next_token(s, pos).1;
    if r is Err || r == Ok::<Token, CompileError>(Token::EOF) {
        seq![r]
    } else if pos < p2 <= s.len() {
        seq![r] + lex_from(s, p2)
    } else {
        seq![r]
    }
}

/// Reading one token moves the stream forward: the head of the stream is
/// that token, and the stream at the new cursor is the tail — except at the
/// end of input, where the stream stays the `EOF` singleton.
pub proof fn lemma_lex_from_step(s: Seq<char>, pos: nat)
    requires
        pos <= s.len(),
    ensures
        ({
            let r = spec_next_token(s, pos).0;
            let p2 = spec_next_token(s, pos).1;
            let ts = lex_from(s, pos);
            &&& pos <= p2 <= s.len()
            &&& ts.len() >= 1
            &&& ts[0] == r
            &&& (r is Ok && r != Ok::<Token, CompileError>(Token::EOF) ==> ts.drop_first()
                == lex_from(s, p2))
            &&& (r == Ok::<Token, CompileError>(Token::EOF) ==> ts == seq![r] && lex_from(s, p2)
                == ts)
            &&& (r is Err ==> ts == seq![r])
        }),
{
    lemma_next_token_bounds(s, pos);
    let r = spec_next_token(s, pos).0;
    let p2 = spec_next_token(s, pos).1;
    let ts = lex_from(s, pos);
    if r is Ok && r != Ok::<Token, CompileError>(Token::EOF) {
        assert(ts == seq![r] + lex_from(s, p2));
        assert(ts.drop_first() =~= lex_from(s, p2));
    }
    if r == Ok::<Token, CompileError>(Token::EOF) {
        assert(p2 == s.len());
        lemma_skip_ws_bounds(s, p2);
        assert(spec_skip_ws(s, p2) == p2);
        assert(spec_next_token(s, p2).0 == Ok::<Token, CompileError>(Token::EOF));
        assert(lex_from(s, p2) == seq![spec_next_token(s, p2).0]);
        assert(lex_from(s, p2) =~= ts);
    }
}

/// The measure the recursive descent shrinks: the stream's length, plus one
/// unless the lookahead is already `EOF`.
pub open spec fn parse_measure(cur: Token, rest: TokenStream) -> nat {
    rest.len() + if cur == Token::EOF {
        0nat
    } else {
        1nat
    }
}

/// What `eat` does: a lookahead of the wrong kind is `UnexpectedToken`; else
/// the next stream element becomes the lookahead — a lexical error there
/// surfaces now — and the stream advances, staying put once it is the `EOF`
/// singleton.
pub open spec fn spec_eat(cur: Token, rest: TokenStream, expected: Token) -> Result<
    (Token, TokenStream),
    CompileError,
> {
    if !kind_matches(cur, expected) {
        Err(CompileError::UnexpectedToken)
    } else if rest.len() == 0 {
        Err(CompileError::UnexpectedToken)
    } else {
        match rest[0] {
            Err(e) => Err(e),
            Ok(t) => if t == Token::EOF {
                Ok((t, rest))
            } else {
                Ok((t, rest.drop_first()))
            },
        }
    }
}

/// What taking the first lookahead from a fresh stream yields.
pub open spec fn spec_start(ts: TokenStream) -> Result<(Token, TokenStream), CompileError> {
    if ts.len() == 0 {
        Err(CompileError::UnexpectedToken)
    } else {
        match ts[0] {
            Err(e) => Err(e),
            Ok(t) => if t == Token::EOF {
                Ok((t, ts))
            } else {
                Ok((t, ts.drop_first()))
            },
        }
    }
}

/// The grammar rule `factor := INTEGER | "(" expr ")"`: result, new
/// lookahead, new stream; any other lookahead is `UnexpectedToken`.
pub open spec fn spec_factor(cur: Token, rest: TokenStream) -> Result<
    (Expr, Token, TokenStream),
    CompileError,
>
    decreases parse_measure(cur, rest), 0nat,
{
    match cur {
        Token::Int(n) => match spec_eat(cur, rest, Token::Int(0)) {
            Err(e) => Err(e),
            Ok((c1, r1)) => Ok((Expr::Num(n), c1, r1)),
        },
        Token::LParen => match spec_eat(cur, rest, Token::LParen) {
            Err(e) => Err(e),
            Ok((c1, r1)) => match spec_expr(c1, r1) {
                Err(e) => Err(e),
                Ok((e0, c2, r2)) => match spec_eat(c2, r2, Token::RParen) {
                    Err(e) => Err(e),
                    Ok((c3, r3)) => Ok((e0, c3, r3)),
                },
            },
        },
        _ => Err(CompileError::UnexpectedToken),
    }
}

/// The left-associative fold of `("*" | "/") factor` onto an already parsed
/// left operand.
pub open spec fn spec_term_tail(acc: Expr, cur: Token, rest: TokenStream) -> Result<
    (Expr, Token, TokenStream),
    CompileError,
>
    decreases parse_measure(cur, rest), 1nat,
{
    if cur == Token::Mul || cur == Token::Div {
        match spec_eat(cur, rest, cur) {
            Err(e) => Err(e),
            Ok((c1, r1)) => match spec_factor(c1, r1) {
                Err(e) => Err(e),
                Ok((f, c2, r2)) => if parse_measure(c2, r2) < parse_measure(cur, rest) {
                    spec_term_tail(Expr::BinOp(Box::new(acc), cur, Box::new(f)), c2, r2)
                } else {
                    Err(CompileError::UnexpectedToken)
                },
            },
        }
    } else {
        Ok((acc, cur, rest))
    }
}

/// The grammar rule `term := factor (("*" | "/") factor)*`.
pub open spec fn spec_term(cur: Token, rest: TokenStream) -> Result<
    (Expr, Token, TokenStream),
    CompileError,
>
    decreases parse_measure(cur, rest), 2nat,
{
    match spec_factor(cur, rest) {
        Err(e) => Err(e),
        Ok((f, c1, r1)) => if parse_measure(c1, r1) <= parse_measure(cur, rest) {
            spec_term_tail(f, c1, r1)
        } else {
            Err(CompileError::UnexpectedToken)
        },
    }
}

/// The left-associative fold of `("+" | "-") term` onto an already parsed
/// left operand.
pub open spec fn spec_expr_tail(acc: Expr, cur: Token, rest: TokenStream) -> Result<
    (Expr, Token, TokenStream),
    CompileError,
>
    decreases parse_measure(cur, rest), 3nat,
{
    if cur == Token::Plus || cur == Token::Minus {
        match spec_eat(cur, rest, cur) {
            Err(e) => Err(e),
            Ok((c1, r1)) => match spec_term(c1, r1) {
                Err(e) => Err(e),
                Ok((t, c2, r2)) => if parse_measure(c2, r2) < parse_measure(cur, rest) {
                    spec_expr_tail(Expr::BinOp(Box::new(acc), cur, Box::new(t)), c2, r2)
                } else {
                    Err(CompileError::UnexpectedToken)
                },
            },
        }
    } else {
        Ok((acc, cur, rest))
    }
}

/// The grammar rule `expr := term (("+" | "-") term)*`. Binary operators are
/// left-associative and `*`/`/` bind tighter than `+`/`-`, because additive
/// operators are folded here over whole terms.
pub open spec fn spec_expr(cur: Token, rest: TokenStream) -> Result<
    (Expr, Token, TokenStream),
    CompileError,
>
    decreases parse_measure(cur, rest), 4nat,
{
    match spec_term(cur, rest) {
        Err(e) => Err(e),
        Ok((t, c1, r1)) => if parse_measure(c1, r1) <= parse_measure(cur, rest) {
            spec_expr_tail(t, c1, r1)
        } else {
            Err(CompileError::UnexpectedToken)
        },
    }
}

/// The grammar rule `statement := "print" expr ";"`.
pub open spec fn spec_statement(cur: Token, rest: TokenStream) -> Result<
    (Stmt, Token, TokenStream),
    CompileError,
> {
    match spec_eat(cur, rest, Token::Print) {
        Err(e) => Err(e),
        Ok((c1, r1)) => match spec_expr(c1, r1) {
            Err(e) => Err(e),
            Ok((e0, c2, r2)) => match spec_eat(c2, r2, Token::Semi) {
                Err(e) => Err(e),
                Ok((c3, r3)) => Ok((Stmt::Print(e0), c3, r3)),
            },
        },
    }
}

/// The grammar rule `program := statement* END`: the statements in source
/// order, or the first error met.
pub open spec fn spec_program(cur: Token, rest: TokenStream) -> Result<Seq<Stmt>, CompileError>
    decreases parse_measure(cur, rest),
{
    if cur == Token::EOF {
        Ok(Seq::empty())
    } else {
        match spec_statement(cur, rest) {
            Err(e) => Err(e),
            Ok((s0, c1, r1)) => if parse_measure(c1, r1) < parse_measure(cur, rest) {
                match spec_program(c1, r1) {
                    Err(e) => Err(e),
                    Ok(ss) => Ok(seq![s0] + ss),
                }
            } else {
                Err(CompileError::UnexpectedToken)
            },
        }
    }
}

pub proof fn lemma_factor_measure(cur: Token, rest: TokenStream)
    ensures
        spec_factor(cur, rest) matches Ok(t) ==> parse_measure(t.1, t.2) < parse_measure(
            cur,
            rest,
        ),
    decreases parse_measure(cur, rest), 0nat,
{
    match cur {
        Token::LParen => {
            match spec_eat(cur, rest, Token::LParen) {
                Err(_) => {},
                Ok((c1, r1)) => {
                    lemma_expr_measure(c1, r1);
                },
            }
        },
        _ => {},
    }
}

pub proof fn lemma_term_tail_measure(acc: Expr, cur: Token, rest: TokenStream)
    ensures
        spec_term_tail(acc, cur, rest) matches Ok(t) ==> parse_measure(t.1, t.2)
            <= parse_measure(cur, rest),
    decreases parse_measure(cur, rest), 1nat,
{
    if cur == Token::Mul || cur == Token::Div {
        match spec_eat(cur, rest, cur) {
            Err(_) => {},
            Ok((c1, r1)) => {
                lemma_factor_measure(c1, r1);
                match spec_factor(c1, r1) {
                    Err(_) => {},
                    Ok((f, c2, r2)) => {
                        if parse_measure(c2, r2) < parse_measure(cur, rest) {
                            lemma_term_tail_measure(
                                Expr::BinOp(Box::new(acc), cur, Box::new(f)),
                                c2,
                                r2,
                            );
                        }
                    },
                }
            },
        }
    }
}

pub proof fn lemma_term_measure(cur: Token, rest: TokenStream)
    ensures
        spec_term(cur, rest) matches Ok(t) ==> parse_measure(t.1, t.2) < parse_measure(cur, rest),
    decreases parse_measure(cur, rest), 2nat,
{
    lemma_factor_measure(cur, rest);
    match spec_factor(cur, rest) {
        Err(_) => {},
        Ok((f, c1, r1)) => {
            lemma_term_tail_measure(f, c1, r1);
        },
    }
}

pub proof fn lemma_expr_tail_measure(acc: Expr, cur: Token, rest: TokenStream)
    ensures
        spec_expr_tail(acc, cur, rest) matches Ok(t) ==> parse_measure(t.1, t.2)
            <= parse_measure(cur, rest),
    decreases parse_measure(cur, rest), 3nat,
{
    if cur == Token::Plus || cur == Token::Minus {
        match spec_eat(cur, rest, cur) {
            Err(_) => {},
            Ok((c1, r1)) => {
                lemma_term_measure(c1, r1);
                match spec_term(c1, r1) {
                    Err(_) => {},
                    Ok((t, c2, r2)) => {
                        if parse_measure(c2, r2) < parse_measure(cur, rest) {
                            lemma_expr_tail_measure(
                                Expr::BinOp(Box::new(acc), cur, Box::new(t)),
                                c2,
                                r2,
                            );
                        }
                    },
                }
            },
        }
    }
}

pub proof fn lemma_expr_measure(cur: Token, rest: TokenStream)
    ensures
        spec_expr(cur, rest) matches Ok(t) ==> parse_measure(t.1, t.2) < parse_measure(cur, rest),
    decreases parse_measure(cur, rest), 4nat,
{
    lemma_term_measure(cur, rest);
    match spec_term(cur, rest) {
        Err(_) => {},
        Ok((t, c1, r1)) => {
            lemma_expr_tail_measure(t, c1, r1);
        },
    }
}

pub proof fn lemma_statement_measure(cur: Token, rest: TokenStream)
    ensures
        spec_statement(cur, rest) matches Ok(t) ==> parse_measure(t.1, t.2) < parse_measure(
            cur,
            rest,
        ),
{
    match spec_eat(cur, rest, Token::Print) {
        Err(_) => {},
        Ok((c1, r1)) => {
            lemma_expr_measure(c1, r1);
        },
    }
}

/// The parser: the lexer it pulls from and the single lookahead token.
pub struct Parser {
    pub lexer: Lexer,
    pub current: Token,
}

impl Parser {
    pub open spec fn wf(self) -> bool {
        self.lexer.wf()
    }

    /// The source text being parsed.
    pub open spec fn source(self) -> Seq<char> {
        self.lexer.input@
    }

    /// The tokens still to come after the lookahead.
    pub open spec fn rest(self) -> TokenStream {
        lex_from(self.lexer.input@, self.lexer.pos as nat)
    }

    /// Pulls the first lookahead. The error of a text whose very first token
    /// is already malformed surfaces here.
    pub fn new(mut lexer: Lexer) -> (r: Result<Parser, CompileError>)
        requires
            lexer.wf(),
        ensures
            match spec_start(lex_from(lexer.input@, lexer.pos as nat)) {
                Ok((t, ts)) => r matches Ok(p) && p.wf() && p.current == t && p.rest() == ts
                    && p.source() == lexer.input@,
                Err(e) => r == Err::<Parser, CompileError>(e),
            },
    {
        proof {
            lemma_lex_from_step(lexer.input@, lexer.pos as nat);
        }
        match lexer.next_token() {
            Ok(t) => Ok(Parser { lexer, current: t }),
            Err(e) => Err(e),
        }
    }

    /// Checks that the lookahead has the expected kind — the payload of an
    /// integer literal is ignored — and advances to the next token; a
    /// mismatch is `UnexpectedToken` and consumes nothing.
    pub fn eat(&mut self, expected: Token) -> (r: Result<(), CompileError>)
        requires
            old(self).wf(),
        ensures
            final(self).wf(),
            final(self).source() == old(self).source(),
            match spec_eat(old(self).current, old(self).rest(), expected) {
                Ok((c1, r1)) => r is Ok && final(self).current == c1 && final(self).rest() == r1,
                Err(e) => r == Err::<(), CompileError>(e),
            },
    {
        if token_kind_eq(&self.current, &expected) {
            proof {
                lemma_lex_from_step(self.lexer.input@, self.lexer.pos as nat);
            }
            match self.lexer.next_token() {
                Ok(t) => {
                    self.current = t;
                    Ok(())
                },
                Err(e) => Err(e),
            }
        } else {
            Err(CompileError::UnexpectedToken)
        }
    }

    /// Parses `factor := INTEGER | "(" expr ")"`, as `spec_factor` describes.
    pub fn factor(&mut self) -> (r: Result<Expr, CompileError>)
        requires
            old(self).wf(),
        ensures
            final(self).wf(),
            final(self).source() == old(self).source(),
            match spec_factor(old(self).current, old(self).rest()) {
                Ok(t) => r matches Ok(e0) && e0 == t.0 && final(self).current == t.1 && final(self).rest() == t.2,
                Err(e) => r == Err::<Expr, CompileError>(e),
            },
        decreases parse_measure(old(self).current, old(self).rest()), 0nat,
    {
        match self.current {
            Token::Int(n) => {
                match self.eat(Token::Int(0)) {
                    Err(e) => Err(e),
                    Ok(()) => Ok(Expr::Num(n)),
                }
            },
            Token::LParen => {
                match self.eat(Token::LParen) {
                    Err(e) => {
                        return Err(e);
                    },
                    Ok(()) => {},
                }
                let e0 = match self.expr() {
                    Err(e) => {
                        return Err(e);
                    },
                    Ok(x) => x,
                };
                match self.eat(Token::RParen) {
                    Err(e) => Err(e),
                    Ok(()) => Ok(e0),
                }
            },
            _ => Err(CompileError::UnexpectedToken),
        }
    }

    /// Parses `term := factor (("*" | "/") factor)*`, folding left, as
    /// `spec_term` describes.
    pub fn term(&mut self) -> (r: Result<Expr, CompileError>)
        requires
            old(self).wf(),
        ensures
            final(self).wf(),
            final(self).source() == old(self).source(),
            match spec_term(old(self).current, old(self).rest()) {
                Ok(t) => r matches Ok(e0) && e0 == t.0 && final(self).current == t.1 && final(self).rest() == t.2,
                Err(e) => r == Err::<Expr, CompileError>(e),
            },
        decreases parse_measure(old(self).current, old(self).rest()), 1nat,
    {
        proof {
            lemma_factor_measure(old(self).current, old(self).rest());
        }
        let mut node = match self.factor() {
            Err(e) => {
                return Err(e);
            },
            Ok(x) => x,
        };
        loop
            invariant
                self.wf(),
                self.source() == old(self).source(),
                parse_measure(self.current, self.rest()) < parse_measure(
                    old(self).current,
                    old(self).rest(),
                ),
                spec_term_tail(node, self.current, self.rest()) == spec_term(
                    old(self).current,
                    old(self).rest(),
                ),
            decreases parse_measure(self.current, self.rest()),
        {
            let op = self.current;
            if op == Token::Mul || op == Token::Div {
                match self.eat(op) {
                    Err(e) => {
                        return Err(e);
                    },
                    Ok(()) => {},
                }
                proof {
                    lemma_factor_measure(self.current, self.rest());
                }
                let f = match self.factor() {
                    Err(e) => {
                        return Err(e);
                    },
                    Ok(x) => x,
                };
                node = Expr::BinOp(Box::new(node), op, Box::new(f));
            } else {
                return Ok(node);
            }
        }
    }

    /// Parses `expr := term (("+" | "-") term)*`, folding left, as
    /// `spec_expr` describes.
    pub fn expr(&mut self) -> (r: Result<Expr, CompileError>)
        requires
            old(self).wf(),
        ensures
            final(self).wf(),
            final(self).source() == old(self).source(),
            match spec_expr(old(self).current, old(self).rest()) {
                Ok(t) => r matches Ok(e0) && e0 == t.0 && final(self).current == t.1 && final(self).rest() == t.2,
                Err(e) => r == Err::<Expr, CompileError>(e),
            },
        decreases parse_measure(old(self).current, old(self).rest()), 2nat,
    {
        proof {
            lemma_term_measure(old(self).current, old(self).rest());
        }
        let mut node = match self.term() {
            Err(e) => {
                return Err(e);
            },
            Ok(x) => x,
        };
        loop
            invariant
                self.wf(),
                self.source() == old(self).source(),
                parse_measure(self.current, self.rest()) < parse_measure(
                    old(self).current,
                    old(self).rest(),
                ),
                spec_expr_tail(node, self.current, self.rest()) == spec_expr(
                    old(self).current,
                    old(self).rest(),
                ),
            decreases parse_measure(self.current, self.rest()),
        {
            let op = self.current;
            if op == Token::Plus || op == Token::Minus {
                match self.eat(op) {
                    Err(e) => {
                        return Err(e);
                    },
                    Ok(()) => {},
                }
                proof {
                    lemma_term_measure(self.current, self.rest());
                }
                let t = match self.term() {
                    Err(e) => {
                        return Err(e);
                    },
                    Ok(x) => x,
                };
                node = Expr::BinOp(Box::new(node), op, Box::new(t));
            } else {
                return Ok(node);
            }
        }
    }

    /// Parses `statement := "print" expr ";"`, as `spec_statement` describes.
    pub fn statement(&mut self) -> (r: Result<Stmt, CompileError>)
        requires
            old(self).wf(),
        ensures
            final(self).wf(),
            final(self).source() == old(self).source(),
            match spec_statement(old(self).current, old(self).rest()) {
                Ok(t) => r matches Ok(s0) && s0 == t.0 && final(self).current == t.1 && final(self).rest() == t.2,
                Err(e) => r == Err::<Stmt, CompileError>(e),
            },
    {
        match self.eat(Token::Print) {
            Err(e) => {
                return Err(e);
            },
            Ok(()) => {},
        }
        let e0 = match self.expr() {
            Err(e) => {
                return Err(e);
            },
            Ok(x) => x,
        };
        match self.eat(Token::Semi) {
            Err(e) => Err(e),
            Ok(()) => Ok(Stmt::Print(e0)),
        }
    }

    /// Parses `program := statement* END`, as `spec_program` describes: the
    /// statements in source order, or the first error met.
    pub fn program(&mut self) -> (r: Result<Program, CompileError>)
        requires
            old(self).wf(),
        ensures
            final(self).wf(),
            final(self).source() == old(self).source(),
            match spec_program(old(self).current, old(self).rest()) {
                Ok(ss) => r matches Ok(p) && p.stmts@ == ss,
                Err(e) => r matches Err(e2) && e2 == e,
            },
    {
        let mut stmts: Vec<Stmt> = Vec::new();
        proof {
            match spec_program(old(self).current, old(self).rest()) {
                Ok(ss) => {
                    assert(stmts@ + ss =~= ss);
                },
                Err(_) => {},
            }
        }
        loop
            invariant
                self.wf(),
                self.source() == old(self).source(),
                spec_program(old(self).current, old(self).rest()) == (match spec_program(
                    self.current,
                    self.rest(),
                ) {
                    Ok(ss) => Ok::<Seq<Stmt>, CompileError>(stmts@ + ss),
                    Err(e) => Err::<Seq<Stmt>, CompileError>(e),
                }),
            decreases parse_measure(self.current, self.rest()),
        {
            if token_kind_eq(&self.current, &Token::EOF) {
                proof {
                    assert(stmts@ + Seq::<Stmt>::empty() =~= stmts@);
                }
                return Ok(Program { stmts });
            }
            proof {
                lemma_statement_measure(self.current, self.rest());
            }
            let ghost prev = stmts@;
            let s0 = match self.statement() {
                Err(e) => {
                    return Err(e);
                },
                Ok(x) => x,
            };
            stmts.push(s0);
            proof {
                match spec_program(self.current, self.rest()) {
                    Ok(ss) => {
                        assert(prev + (seq![s0] + ss) =~= stmts@ + ss);
                    },
                    Err(_) => {},
                }
            }
        }
    }
}

} // verus!
