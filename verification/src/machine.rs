use vstd::prelude::*;
use vstd::arithmetic::div_mod::{
    lemma_add_mod_noop, lemma_fundamental_div_mod, lemma_mod_bound, lemma_sub_mod_noop,
};
use crate::ast::Expr;
use crate::codegen::{instrs_of_expr, instrs_of_op, Instr};
use crate::token::Token;

verus! {

/// One past the largest 64-bit register value.
pub open spec fn reg_bound() -> int {
    0x1_0000_0000_0000_0000
}

/// The low 64 bits of a value: what a 64-bit register holds after an
/// operation whose mathematical result is `v`.
pub open spec fn wrap64(v: int) -> int {
    v % 0x1_0000_0000_0000_0000
}

/// The signed reading of a 64-bit register value: two's complement.
pub open spec fn as_signed64(v: int) -> int {
    if v >= 0x8000_0000_0000_0000 {
        v - 0x1_0000_0000_0000_0000
    } else {
        v
    }
}

/// A register value holds a signed value unchanged exactly when that value
/// fits 64 signed bits.
pub proof fn lemma_signed_roundtrip(v: int)
    requires
        -0x8000_0000_0000_0000 <= v < 0x8000_0000_0000_0000,
    ensures
        as_signed64(wrap64(v)) == v,
        v >= 0 ==> wrap64(v) == v,
{
    lemma_mod_bound(v, reg_bound());
    lemma_fundamental_div_mod(v, reg_bound());
}

/// Signed truncating division, the rounding `idiv` performs: the quotient is
/// rounded toward zero.
pub open spec fn trunc_div(a: int, b: int) -> int {
    if a >= 0 {
        if b > 0 {
            a / b
        } else {
            -(a / -b)
        }
    } else {
        if b > 0 {
            -((-a) / b)
        } else {
            (-a) / (-b)
        }
    }
}

/// The machine as the emitted expression code sees it: the four registers it
/// touches and the scratch stack. Register values are 64-bit patterns, held
/// as integers.
pub struct MachineState {
    pub rax: int,
    pub rbx: int,
    pub rcx: int,
    pub rdx: int,
    pub stack: Seq<int>,
}

/// The effect of one instruction, or nothing where the machine faults: a pop
/// from an empty stack, a division by zero, or a quotient too wide for its
/// register. `idiv` divides the 128-bit value `rdx:rax` — read signed — by
/// the signed reading of `rcx`, leaving quotient and remainder.
pub open spec fn step(m: MachineState, i: Instr) -> Option<MachineState> {
    match i {
        Instr::MovRaxImm(n) => Some(MachineState { rax: wrap64(n as int), ..m }),
        Instr::PushRax => Some(MachineState { stack: m.stack.push(m.rax), ..m }),
        Instr::PopRbx => if m.stack.len() == 0 {
            None
        } else {
            Some(MachineState { rbx: m.stack.last(), stack: m.stack.drop_last(), ..m })
        },
        Instr::AddRaxRbx => Some(MachineState { rax: wrap64(m.rax + m.rbx), ..m }),
        Instr::SubRbxRax => Some(MachineState { rbx: wrap64(m.rbx - m.rax), ..m }),
        Instr::MovRaxRbx => Some(MachineState { rax: m.rbx, ..m }),
        Instr::ImulRaxRbx => Some(
            MachineState { rax: wrap64(as_signed64(m.rax) * as_signed64(m.rbx)), ..m },
        ),
        Instr::MovRdxZero => Some(MachineState { rdx: 0, ..m }),
        Instr::MovRcxRax => Some(MachineState { rcx: m.rax, ..m }),
        Instr::IdivRcx => {
            let wide = m.rdx * reg_bound() + m.rax;
            let dividend = if wide >= 0x8000_0000_0000_0000_0000_0000_0000_0000 {
                wide - 0x1_0000_0000_0000_0000_0000_0000_0000_0000
            } else {
                wide
            };
            let divisor = as_signed64(m.rcx);
            if divisor == 0 {
                None
            } else {
                let q = trunc_div(dividend, divisor);
                if -0x8000_0000_0000_0000 <= q < 0x8000_0000_0000_0000 {
                    Some(
                        MachineState {
                            rax: wrap64(q),
                            rdx: wrap64(dividend - divisor * q),
                            ..m
                        },
                    )
                } else {
                    None
                }
            }
        },
    }
}

/// Running an instruction sequence from a state: nothing once any step
/// faults.
pub open spec fn run(m: MachineState, is: Seq<Instr>) -> Option<MachineState>
    decreases is.len(),
{
    if is.len() == 0 {
        Some(m)
    } else {
        match step(m, is[0]) {
            None => None,
            Some(m2) => run(m2, is.drop_first()),
        }
    }
}

pub proof fn lemma_run_concat(m: MachineState, a: Seq<Instr>, b: Seq<Instr>)
    ensures
        run(m, a + b) == (match run(m, a) {
            None => None,
            Some(m2) => run(m2, b),
        }),
    decreases a.len(),
{
    if a.len() == 0 {
        assert(a + b =~= b);
    } else {
        assert((a + b)[0] == a[0]);
        assert((a + b).drop_first() =~= a.drop_first() + b);
        match step(m, a[0]) {
            None => {},
            Some(m2) => {
                lemma_run_concat(m2, a.drop_first(), b);
            },
        }
    }
}

pub proof fn lemma_run_one(m: MachineState, i: Instr)
    ensures
        run(m, seq![i]) == step(m, i),
{
    assert(seq![i].drop_first() =~= Seq::<Instr>::empty());
    match step(m, i) {
        None => {},
        Some(m2) => {
            assert(run(m2, seq![i].drop_first()) == Some(m2));
        },
    }
}

/// The value the emitted code computes for one operator, given the 64-bit
/// patterns of the left and right operand values. Addition, subtraction and
/// multiplication keep the low 64 bits of the result. Division reads the
/// dividend from `rdx:rax` with `rdx` cleared to zero, so the left pattern is
/// read as a nonnegative value, not sign-extended; it faults on a zero
/// divisor and on a quotient too wide for its register. A non-arithmetic
/// operator token adds no instruction, leaving the right operand's value.
pub open spec fn eval_op(a: int, b: int, op: Token) -> Option<int> {
    match op {
        Token::Plus => Some(wrap64(a + b)),
        Token::Minus => Some(wrap64(a - b)),
        Token::Mul => Some(wrap64(as_signed64(a) * as_signed64(b))),
        Token::Div => {
            let divisor = as_signed64(b);
            if divisor == 0 {
                None
            } else {
                let q = trunc_div(a, divisor);
                if -0x8000_0000_0000_0000 <= q < 0x8000_0000_0000_0000 {
                    Some(wrap64(q))
                } else {
                    None
                }
            }
        },
        _ => Some(b),
    }
}

/// The 64-bit pattern the emitted code of an expression leaves in the
/// accumulator, or nothing where that code faults.
pub open spec fn eval_expr(e: Expr) -> Option<int>
    decreases e,
{
    match e {
        Expr::Num(n) => Some(wrap64(n as int)),
        Expr::BinOp(l, op, r) => match (eval_expr(*l), eval_expr(*r)) {
            (Some(a), Some(b)) => eval_op(a, b, op),
            _ => None,
        },
    }
}

/// Every value the emitted code computes is a 64-bit pattern.
pub proof fn lemma_eval_range(e: Expr)
    ensures
        eval_expr(e) matches Some(v) ==> 0 <= v < reg_bound(),
    decreases e,
{
    match e {
        Expr::Num(n) => {
            lemma_mod_bound(n as int, reg_bound());
        },
        Expr::BinOp(l, op, r) => {
            lemma_eval_range(*l);
            lemma_eval_range(*r);
            match (eval_expr(*l), eval_expr(*r)) {
                (Some(a), Some(b)) => {
                    match op {
                        Token::Plus => {
                            lemma_mod_bound(a + b, reg_bound());
                        },
                        Token::Minus => {
                            lemma_mod_bound(a - b, reg_bound());
                        },
                        Token::Mul => {
                            lemma_mod_bound(as_signed64(a) * as_signed64(b), reg_bound());
                        },
                        Token::Div => {
                            let divisor = as_signed64(b);
                            if divisor != 0 {
                                lemma_mod_bound(trunc_div(a, divisor), reg_bound());
                            }
                        },
                        _ => {},
                    }
                },
                _ => {},
            }
        },
    }
}

/// The emitted code of an expression is faithful to `eval_expr`: run from
/// any state, it leaves exactly that value in the accumulator and the
/// scratch stack as it found it — and it faults exactly where `eval_expr`
/// has no value.
#[verifier::rlimit(100)]
#[verifier::spinoff_prover]
pub proof fn lemma_expr_machine(e: Expr, m: MachineState)
    ensures
        ({
            let r = run(m, instrs_of_expr(e));
            match eval_expr(e) {
                Some(v) => r matches Some(m2) && m2.rax == v && m2.stack == m.stack,
                None => r is None,
            }
        }),
    decreases e,
{
    match e {
        Expr::Num(n) => {
            lemma_run_one(m, Instr::MovRaxImm(n));
        },
        Expr::BinOp(l, op, r) => {
            let il = instrs_of_expr(*l);
            let ir = instrs_of_expr(*r);
            let io = instrs_of_op(op);
            lemma_eval_range(*l);
            lemma_run_concat(m, il, seq![Instr::PushRax] + (ir + (seq![Instr::PopRbx] + io)));
            assert(instrs_of_expr(e) =~= il + (seq![Instr::PushRax] + (ir + (seq![
                Instr::PopRbx,
            ] + io))));
            lemma_expr_machine(*l, m);
            match eval_expr(*l) {
                None => {},
                Some(va) => {
                    let m1 = run(m, il).unwrap();
                    lemma_run_concat(m1, seq![Instr::PushRax], ir + (seq![Instr::PopRbx] + io));
                    lemma_run_one(m1, Instr::PushRax);
                    let m1p = step(m1, Instr::PushRax).unwrap();
                    lemma_run_concat(m1p, ir, seq![Instr::PopRbx] + io);
                    lemma_expr_machine(*r, m1p);
                    match eval_expr(*r) {
                        None => {},
                        Some(vb) => {
                            let m2 = run(m1p, ir).unwrap();
                            lemma_run_concat(m2, seq![Instr::PopRbx], io);
                            lemma_run_one(m2, Instr::PopRbx);
                            assert(m2.stack == m.stack.push(va));
                            assert(m2.stack.len() >= 1);
                            let m3 = step(m2, Instr::PopRbx).unwrap();
                            assert(m3.rbx == va && m3.rax == vb);
                            assert(m3.stack =~= m.stack);
                            lemma_op_machine(va, vb, op, m3);
                        },
                    }
                },
            }
        },
    }
}

/// The operator instructions combine the left value (in `rbx`) and the right
/// value (in `rax`) exactly as `eval_op` says.
#[verifier::rlimit(100)]
#[verifier::spinoff_prover]
proof fn lemma_op_machine(va: int, vb: int, op: Token, m3: MachineState)
    requires
        0 <= va < reg_bound(),
        m3.rbx == va,
        m3.rax == vb,
    ensures
        ({
            let r = run(m3, instrs_of_op(op));
            match eval_op(va, vb, op) {
                Some(v) => r matches Some(m4) && m4.rax == v && m4.stack == m3.stack,
                None => r is None,
            }
        }),
{
    match op {
        Token::Plus => {
            lemma_run_one(m3, Instr::AddRaxRbx);
            assert(instrs_of_op(op) =~= seq![Instr::AddRaxRbx]);
        },
        Token::Minus => {
            assert(instrs_of_op(op) =~= seq![Instr::SubRbxRax] + seq![Instr::MovRaxRbx]);
            lemma_run_concat(m3, seq![Instr::SubRbxRax], seq![Instr::MovRaxRbx]);
            lemma_run_one(m3, Instr::SubRbxRax);
            let m4 = step(m3, Instr::SubRbxRax).unwrap();
            lemma_run_one(m4, Instr::MovRaxRbx);
        },
        Token::Mul => {
            lemma_run_one(m3, Instr::ImulRaxRbx);
            assert(instrs_of_op(op) =~= seq![Instr::ImulRaxRbx]);
        },
        Token::Div => {
            let tail2 = seq![Instr::MovRaxRbx] + seq![Instr::IdivRcx];
            let tail1 = seq![Instr::MovRcxRax] + tail2;
            assert(instrs_of_op(op) =~= seq![Instr::MovRdxZero] + tail1);
            lemma_run_concat(m3, seq![Instr::MovRdxZero], tail1);
            lemma_run_one(m3, Instr::MovRdxZero);
            let m4 = step(m3, Instr::MovRdxZero).unwrap();
            lemma_run_concat(m4, seq![Instr::MovRcxRax], tail2);
            lemma_run_one(m4, Instr::MovRcxRax);
            let m5 = step(m4, Instr::MovRcxRax).unwrap();
            lemma_run_concat(m5, seq![Instr::MovRaxRbx], seq![Instr::IdivRcx]);
            lemma_run_one(m5, Instr::MovRaxRbx);
            let m6 = step(m5, Instr::MovRaxRbx).unwrap();
            lemma_run_one(m6, Instr::IdivRcx);
            assert(m6.rdx == 0 && m6.rcx == vb && m6.rax == va);
            assert(m6.rdx * reg_bound() + m6.rax == va);
        },
        _ => {
            assert(instrs_of_op(op) =~= Seq::<Instr>::empty());
        },
    }
}

/// For every pair of 64-bit signed operand values and every arithmetic
/// operator — the divisor nonzero and the dividend nonnegative for division,
/// the exact result in range for the others — the emitted instruction
/// sequence for the operator applied to the two literals computes, in the
/// accumulator's signed reading, exactly the number arithmetic gives.
#[verifier::rlimit(100)]
#[verifier::spinoff_prover]
pub proof fn lemma_binop_fidelity(a: i64, b: i64, op: Token, m: MachineState)
    requires
        op == Token::Plus || op == Token::Minus || op == Token::Mul || op == Token::Div,
        op == Token::Plus ==> i64::MIN <= a + b <= i64::MAX,
        op == Token::Minus ==> i64::MIN <= a - b <= i64::MAX,
        op == Token::Mul ==> i64::MIN <= a * b <= i64::MAX,
        op == Token::Div ==> b != 0 && a >= 0,
    ensures
        ({
            let e = Expr::BinOp(Box::new(Expr::Num(a)), op, Box::new(Expr::Num(b)));
            let exact = if op == Token::Plus {
                a + b
            } else if op == Token::Minus {
                a - b
            } else if op == Token::Mul {
                a * b
            } else {
                trunc_div(a as int, b as int)
            };
            run(m, instrs_of_expr(e)) matches Some(m2) && as_signed64(m2.rax) == exact
                && m2.stack == m.stack
        }),
{
    let e = Expr::BinOp(Box::new(Expr::Num(a)), op, Box::new(Expr::Num(b)));
    let wa = wrap64(a as int);
    let wb = wrap64(b as int);
    lemma_signed_roundtrip(a as int);
    lemma_signed_roundtrip(b as int);
    lemma_expr_machine(e, m);
    assert(eval_expr(Expr::Num(a)) == Some(wa));
    assert(eval_expr(Expr::Num(b)) == Some(wb));
    assert(eval_expr(e) == eval_op(wa, wb, op));
    if op == Token::Plus {
        lemma_add_mod_noop(a as int, b as int, reg_bound());
        lemma_signed_roundtrip((a + b) as int);
        assert(eval_op(wa, wb, op) == Some(wrap64(a as int + b as int)));
    } else if op == Token::Minus {
        lemma_sub_mod_noop(a as int, b as int, reg_bound());
        lemma_signed_roundtrip((a - b) as int);
        assert(eval_op(wa, wb, op) == Some(wrap64(a as int - b as int)));
    } else if op == Token::Mul {
        lemma_signed_roundtrip((a * b) as int);
        assert(eval_op(wa, wb, op) == Some(wrap64(a as int * b as int)));
    } else {
        assert(wa == a as int);
        let q = trunc_div(a as int, b as int);
        lemma_trunc_div_in_range(a as int, b as int);
        lemma_signed_roundtrip(q);
        assert(eval_op(wa, wb, op) == Some(wrap64(q)));
    }
}

/// The truncating quotient of a nonnegative 64-bit signed dividend by a
/// nonzero divisor never leaves the 64-bit signed range.
proof fn lemma_trunc_div_in_range(a: int, b: int)
    requires
        0 <= a < 0x8000_0000_0000_0000,
        b != 0,
    ensures
        -0x8000_0000_0000_0000 <= trunc_div(a, b) < 0x8000_0000_0000_0000,
{
    if b > 0 {
        assert(a / b >= 0 && a / b <= a) by (nonlinear_arith)
            requires
                a >= 0,
                b >= 1,
        ;
    } else {
        assert(a / -b >= 0 && a / -b <= a) by (nonlinear_arith)
            requires
                a >= 0,
                -b >= 1,
        ;
    }
}

} // verus!
