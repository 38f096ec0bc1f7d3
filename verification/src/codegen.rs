use vstd::prelude::*;
use crate::ast::{Expr, Program, Stmt};
use crate::numfmt::{dec_int, i64_to_dec};
use crate::token::Token;

verus! {

/// The instructions the expression lowering emits, one constructor per
/// distinct text line. The lowering keeps a stack discipline: `rax` holds
/// the current value, a push/pop pair brackets the right operand.
pub enum Instr {
    MovRaxImm(i64),
    PushRax,
    PopRbx,
    AddRaxRbx,
    SubRbxRax,
    MovRaxRbx,
    ImulRaxRbx,
    MovRdxZero,
    MovRcxRax,
    IdivRcx,
}

/// The text line of one instruction, newline included.
pub open spec fn instr_line(i: Instr) -> Seq<char> {
    match i {
        Instr::MovRaxImm(n) => "    mov rax, "@ + dec_int(n as int) + "\n"@,
        Instr::PushRax => "    push rax"@ + "\n"@,
        Instr::PopRbx => "    pop rbx"@ + "\n"@,
        Instr::AddRaxRbx => "    add rax, rbx"@ + "\n"@,
        Instr::SubRbxRax => "    sub rbx, rax"@ + "\n"@,
        Instr::MovRaxRbx => "    mov rax, rbx"@ + "\n"@,
        Instr::ImulRaxRbx => "    imul rax, rbx"@ + "\n"@,
        Instr::MovRdxZero => "    mov rdx, 0"@ + "\n"@,
        Instr::MovRcxRax => "    mov rcx, rax"@ + "\n"@,
        Instr::IdivRcx => "    idiv rcx"@ + "\n"@,
    }
}

/// The text of an instruction sequence: its lines in order.
pub open spec fn render(is: Seq<Instr>) -> Seq<char>
    decreases is.len(),
{
    if is.len() == 0 {
        Seq::empty()
    } else {
        instr_line(is[0]) + render(is.drop_first())
    }
}

pub proof fn lemma_render_empty()
    ensures
        render(Seq::<Instr>::empty()) == Seq::<char>::empty(),
{
}

pub proof fn lemma_render_cons(i: Instr, is: Seq<Instr>)
    ensures
        render(seq![i] + is) == instr_line(i) + render(is),
{
    assert((seq![i] + is)[0] == i);
    assert((seq![i] + is).drop_first() =~= is);
}

pub proof fn lemma_render_one(i: Instr)
    ensures
        render(seq![i]) == instr_line(i),
{
    lemma_render_empty();
    lemma_render_cons(i, Seq::<Instr>::empty());
    assert(seq![i] =~= seq![i] + Seq::<Instr>::empty());
    assert(instr_line(i) + Seq::<char>::empty() =~= instr_line(i));
}

pub proof fn lemma_render_concat(a: Seq<Instr>, b: Seq<Instr>)
    ensures
        render(a + b) == render(a) + render(b),
    decreases a.len(),
{
    if a.len() == 0 {
        assert(a + b =~= b);
        assert(render(a) + render(b) =~= render(b));
    } else {
        assert((a + b).drop_first() =~= a.drop_first() + b);
        assert((a + b)[0] == a[0]);
        lemma_render_concat(a.drop_first(), b);
        assert(render(a + b) =~= render(a) + render(b));
    }
}

/// The instructions that combine the two operand values left on the stack
/// and in `rax`. An operator token outside the four arithmetic kinds adds
/// nothing, as in the lowering itself.
pub open spec fn instrs_of_op(op: Token) -> Seq<Instr> {
    match op {
        Token::Plus => seq![Instr::AddRaxRbx],
        Token::Minus => seq![Instr::SubRbxRax, Instr::MovRaxRbx],
        Token::Mul => seq![Instr::ImulRaxRbx],
        Token::Div => seq![
            Instr::MovRdxZero,
            Instr::MovRcxRax,
            Instr::MovRaxRbx,
            Instr::IdivRcx,
        ],
        _ => Seq::empty(),
    }
}

pub proof fn lemma_render_op(op: Token)
    ensures
        render(instrs_of_op(op)) == (match op {
            Token::Plus => instr_line(Instr::AddRaxRbx),
            Token::Minus => instr_line(Instr::SubRbxRax) + instr_line(Instr::MovRaxRbx),
            Token::Mul => instr_line(Instr::ImulRaxRbx),
            Token::Div => instr_line(Instr::MovRdxZero) + instr_line(Instr::MovRcxRax)
                + instr_line(Instr::MovRaxRbx) + instr_line(Instr::IdivRcx),
            _ => Seq::<char>::empty(),
        }),
{
    match op {
        Token::Plus => {
            lemma_render_one(Instr::AddRaxRbx);
            assert(instrs_of_op(op) =~= seq![Instr::AddRaxRbx]);
        },
        Token::Minus => {
            assert(instrs_of_op(op) =~= seq![Instr::SubRbxRax] + seq![Instr::MovRaxRbx]);
            lemma_render_cons(Instr::SubRbxRax, seq![Instr::MovRaxRbx]);
            lemma_render_one(Instr::MovRaxRbx);
        },
        Token::Mul => {
            lemma_render_one(Instr::ImulRaxRbx);
            assert(instrs_of_op(op) =~= seq![Instr::ImulRaxRbx]);
        },
        Token::Div => {
            let tail2 = seq![Instr::MovRaxRbx] + seq![Instr::IdivRcx];
            let tail1 = seq![Instr::MovRcxRax] + tail2;
            assert(instrs_of_op(op) =~= seq![Instr::MovRdxZero] + tail1);
            lemma_render_cons(Instr::MovRdxZero, tail1);
            lemma_render_cons(Instr::MovRcxRax, tail2);
            lemma_render_cons(Instr::MovRaxRbx, seq![Instr::IdivRcx]);
            lemma_render_one(Instr::IdivRcx);
            assert(render(instrs_of_op(op)) =~= instr_line(Instr::MovRdxZero) + instr_line(
                Instr::MovRcxRax,
            ) + instr_line(Instr::MovRaxRbx) + instr_line(Instr::IdivRcx));
        },
        _ => {
            lemma_render_empty();
            assert(instrs_of_op(op) =~= Seq::<Instr>::empty());
        },
    }
}

/// The instruction sequence an expression lowers to: a literal becomes a
/// materialize-constant instruction; an operator node lowers its left child,
/// pushes, lowers its right child, pops, and combines.
pub open spec fn instrs_of_expr(e: Expr) -> Seq<Instr>
    decreases e,
{
    match e {
        Expr::Num(n) => seq![Instr::MovRaxImm(n)],
        Expr::BinOp(l, op, r) => instrs_of_expr(*l) + seq![Instr::PushRax]
            + instrs_of_expr(*r) + seq![Instr::PopRbx] + instrs_of_op(op),
    }
}

/// The text a statement lowers to: its expression's instructions, then the
/// move into the argument register and the call of the runtime print routine.
pub open spec fn asm_of_stmt(s: Stmt) -> Seq<char> {
    match s {
        Stmt::Print(e) => render(instrs_of_expr(e)) + "    mov rdi, rax"@ + "\n"@
            + "    call print_int"@ + "\n"@,
    }
}

/// The text of a statement sequence, in order.
pub open spec fn asm_of_stmts(ss: Seq<Stmt>) -> Seq<char>
    decreases ss.len(),
{
    if ss.len() == 0 {
        Seq::empty()
    } else {
        asm_of_stmts(ss.drop_last()) + asm_of_stmt(ss.last())
    }
}

/// The first preamble lines: entry symbol, text section, and the head of
/// the `print_int` routine, which readies the buffer end, the base, and the
/// value to print.
pub open spec fn preamble_head() -> Seq<char> {
    "global _start"@ + "\n"@ + "section .text"@ + "\n"@ + "print_int:"@ + "\n"@
        + "    mov rcx, buffer+20"@ + "\n"@ + "    mov rbx, 10"@ + "\n"@
        + "    mov rax, rdi"@ + "\n"@
}

/// The digit loop of `print_int`: divide by ten, store the remainder digit
/// backward into the buffer, until the quotient reaches zero.
pub open spec fn preamble_convert() -> Seq<char> {
    "convert:"@ + "\n"@ + "    xor rdx, rdx"@ + "\n"@ + "    div rbx"@ + "\n"@
        + "    add dl, '0'"@ + "\n"@ + "    dec rcx"@ + "\n"@ + "    mov [rcx], dl"@ + "\n"@
        + "    test rax, rax"@ + "\n"@ + "    jnz convert"@ + "\n"@
}

/// The raw write of the digit slice in `print_int`.
pub open spec fn preamble_write_digits() -> Seq<char> {
    "    mov rax, 1"@ + "\n"@ + "    mov rdi, 1"@ + "\n"@ + "    mov rsi, rcx"@ + "\n"@
        + "    mov rdx, buffer+20"@ + "\n"@ + "    sub rdx, rcx"@ + "\n"@ + "    syscall"@
        + "\n"@
}

/// The raw write of the newline byte in `print_int`, its return, and the
/// `_start` label.
pub open spec fn preamble_write_newline() -> Seq<char> {
    "    mov rax, 1"@ + "\n"@ + "    mov rdi, 1"@ + "\n"@ + "    mov rsi, newline"@ + "\n"@
        + "    mov rdx, 1"@ + "\n"@ + "    syscall"@ + "\n"@ + "    ret"@ + "\n"@
        + "_start:"@ + "\n"@
}

/// The fixed text preceding the lowered statements: the entry symbol, the
/// text section, the digit-by-digit `print_int` routine, and the `_start`
/// label.
pub open spec fn asm_preamble() -> Seq<char> {
    preamble_head() + preamble_convert() + preamble_write_digits() + preamble_write_newline()
}

/// The fixed text following the lowered statements: the exit call and the
/// buffer and newline declarations.
pub open spec fn asm_epilogue() -> Seq<char> {
    "    mov rax, 60"@ + "\n"@ + "    xor rdi, rdi"@ + "\n"@ + "    syscall"@ + "\n"@
        + "section .bss"@ + "\n"@ + "buffer resb 21"@ + "\n"@ + "section .data"@ + "\n"@
        + "newline db 10"@ + "\n"@
}

/// The complete output text of a program: preamble, each statement's text in
/// order, epilogue. A function of the statement sequence alone, so equal
/// programs always yield byte-identical output.
pub open spec fn asm_of_program(ss: Seq<Stmt>) -> Seq<char> {
    asm_preamble() + asm_of_stmts(ss) + asm_epilogue()
}

/// Identical AST input produces byte-identical generated output: the whole
/// output text is a function of the statement sequence and of nothing else.
pub proof fn lemma_output_deterministic(a: Seq<Stmt>, b: Seq<Stmt>)
    requires
        a == b,
    ensures
        asm_of_program(a) == asm_of_program(b),
{
}

/// The code generator: the output text assembled so far. It carries no other
/// state; lowering is a pure tree walk.
pub struct CodeGen {
    pub output: String,
}

impl CodeGen {
    pub fn new() -> (r: CodeGen)
        ensures
            r.output@ == Seq::<char>::empty(),
    {
        CodeGen { output: String::new() }
    }

    /// Appends one line: the given text and a newline.
    pub fn emit(&mut self, s: &str)
        ensures
            final(self).output@ == old(self).output@ + s@ + "\n"@,
    {
        self.output.append(s);
        self.output.append("\n");
    }

    /// Appends the text of an expression's instruction sequence.
    #[verifier::rlimit(100)]
    pub fn gen_expr(&mut self, expr: &Expr)
        ensures
            final(self).output@ == old(self).output@ + render(instrs_of_expr(*expr)),
        decreases *expr,
    {
        match expr {
            Expr::Num(n) => {
                let mut line = String::from_str("    mov rax, ");
                let digits = i64_to_dec(*n);
                line.append(digits.as_str());
                self.emit(line.as_str());
                proof {
                    lemma_render_one(Instr::MovRaxImm(*n));
                    assert(self.output@ =~= old(self).output@ + render(instrs_of_expr(*expr)));
                }
            },
            Expr::BinOp(l, op, r) => {
                self.gen_expr(&**l);
                self.emit("    push rax");
                self.gen_expr(&**r);
                self.emit("    pop rbx");
                match op {
                    Token::Plus => {
                        self.emit("    add rax, rbx");
                    },
                    Token::Minus => {
                        self.emit("    sub rbx, rax");
                        self.emit("    mov rax, rbx");
                    },
                    Token::Mul => {
                        self.emit("    imul rax, rbx");
                    },
                    Token::Div => {
                        self.emit("    mov rdx, 0");
                        self.emit("    mov rcx, rax");
                        self.emit("    mov rax, rbx");
                        self.emit("    idiv rcx");
                    },
                    _ => {},
                }
                proof {
                    let il = instrs_of_expr(**l);
                    let ir = instrs_of_expr(**r);
                    let io = instrs_of_op(*op);
                    lemma_render_concat(il, seq![Instr::PushRax]);
                    lemma_render_concat(il + seq![Instr::PushRax], ir);
                    lemma_render_concat(il + seq![Instr::PushRax] + ir, seq![Instr::PopRbx]);
                    lemma_render_concat(
                        il + seq![Instr::PushRax] + ir + seq![Instr::PopRbx],
                        io,
                    );
                    lemma_render_one(Instr::PushRax);
                    lemma_render_one(Instr::PopRbx);
                    lemma_render_op(*op);
                    assert(self.output@ =~= old(self).output@ + render(instrs_of_expr(*expr)));
                }
            },
        }
    }

    /// Appends the text of one statement: the expression, then the move into
    /// the argument register and the call of the print routine.
    pub fn gen_stmt(&mut self, stmt: &Stmt)
        ensures
            final(self).output@ == old(self).output@ + asm_of_stmt(*stmt),
    {
        match stmt {
            Stmt::Print(expr) => {
                self.gen_expr(expr);
                self.emit("    mov rdi, rax");
                self.emit("    call print_int");
                proof {
                    assert(self.output@ =~= old(self).output@ + asm_of_stmt(*stmt));
                }
            },
        }
    }

    /// Appends the fixed preamble lines.
    #[verifier::rlimit(100)]
    fn emit_preamble(&mut self)
        ensures
            final(self).output@ == old(self).output@ + asm_preamble(),
    {
        self.emit("global _start");
        self.emit("section .text");

        self.emit("print_int:");
        self.emit("    mov rcx, buffer+20");
        self.emit("    mov rbx, 10");
        self.emit("    mov rax, rdi");

        proof {
            assert(self.output@ =~= old(self).output@ + preamble_head());
        }
        let ghost o1 = self.output@;

        self.emit("convert:");
        self.emit("    xor rdx, rdx");
        self.emit("    div rbx");
        self.emit("    add dl, '0'");
        self.emit("    dec rcx");
        self.emit("    mov [rcx], dl");
        self.emit("    test rax, rax");
        self.emit("    jnz convert");

        proof {
            assert(self.output@ =~= o1 + preamble_convert());
        }
        let ghost o2 = self.output@;

        self.emit("    mov rax, 1");
        self.emit("    mov rdi, 1");
        self.emit("    mov rsi, rcx");
        self.emit("    mov rdx, buffer+20");
        self.emit("    sub rdx, rcx");
        self.emit("    syscall");

        proof {
            assert(self.output@ =~= o2 + preamble_write_digits());
        }
        let ghost o3 = self.output@;

        self.emit("    mov rax, 1");
        self.emit("    mov rdi, 1");
        self.emit("    mov rsi, newline");
        self.emit("    mov rdx, 1");
        self.emit("    syscall");

        self.emit("    ret");

        self.emit("_start:");

        proof {
            assert(self.output@ =~= o3 + preamble_write_newline());
            assert(self.output@ =~= old(self).output@ + asm_preamble());
        }
    }

    /// Appends the fixed epilogue lines.
    #[verifier::rlimit(100)]
    fn emit_epilogue(&mut self)
        ensures
            final(self).output@ == old(self).output@ + asm_epilogue(),
    {
        self.emit("    mov rax, 60");
        self.emit("    xor rdi, rdi");
        self.emit("    syscall");

        self.emit("section .bss");
        self.emit("buffer resb 21");

        self.emit("section .data");
        self.emit("newline db 10");

        proof {
            assert(self.output@ =~= old(self).output@ + asm_epilogue());
        }
    }

    /// Produces the whole output text: preamble, the statements' text in
    /// their order, epilogue.
    #[verifier::rlimit(100)]
    pub fn generate(self, program: Program) -> (r: String)
        ensures
            r@ == self.output@ + asm_of_program(program.stmts@),
    {
        let mut this = self;
        let ghost init_out = this.output@;

        this.emit_preamble();

        let n = program.stmts.len();
        let mut i: usize = 0;
        while i < n
            invariant
                i <= n,
                n == program.stmts.len(),
                this.output@ == init_out + asm_preamble() + asm_of_stmts(
                    program.stmts@.take(i as int),
                ),
            decreases n - i,
        {
            this.gen_stmt(&program.stmts[i]);
            proof {
                let taken = program.stmts@.take(i as int + 1);
                assert(taken.drop_last() =~= program.stmts@.take(i as int));
                assert(taken.last() == program.stmts@[i as int]);
                assert(this.output@ =~= init_out + asm_preamble() + asm_of_stmts(taken));
            }
            i += 1;
        }

        this.emit_epilogue();

        proof {
            assert(program.stmts@.take(n as int) =~= program.stmts@);
            assert(this.output@ =~= init_out + asm_of_program(program.stmts@));
        }

        this.output
    }
}

} // verus!
