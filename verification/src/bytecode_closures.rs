//! Bytecode closures: one unit of code per bytecode instruction, in the
//! bytecode's own order. A unit says whether the run is over; the result is
//! then taken from the operand stack by the loop that drives the units.

use vstd::prelude::*;
use crate::bytecode::{
    apply, code_has_size, code_of, code_runs_as_evaluated, halted, halts_with, initial, program_of,
    program_returns_value, result, size, steps, valued, vsize, Machine, Op,
};
use crate::pieces::holds_at;
use crate::semantics::{evaluates, yields};
use crate::{Expr, Vm, UNIT};

verus! {

/// The engine that compiles to a sequence of [`OpFn`]s.
pub struct BytecodeClosures;

/// One unit of compiled code: which code it is, and what it captured when it
/// was made.
#[derive(Debug, Clone, Copy, PartialEq, Eq)]
pub enum OpFn {
    /// Pushes the captured constant.
    Litr(i64),
    /// Pushes the argument at the captured index.
    Arg(usize),
    /// Pushes the local at the captured offset.
    Get(usize),
    /// Pops two operands and pushes their wrapping sum.
    Add,
    /// Pops an operand and makes it the innermost local.
    Bind,
    /// Drops the innermost local.
    Unbind,
    /// Pops an operand into the local at the captured offset.
    Store(usize),
    /// Drops the top operand.
    Discard,
    /// Pops the loop's test and, where it is not positive, moves the
    /// instruction pointer to the captured end of the loop.
    Branch(usize),
    /// Moves the instruction pointer back to the captured start of the loop.
    Repeat(usize),
    /// Ends the run; the result is on top of the operands, or unit where
    /// there are none.
    Finish,
}

impl OpFn {
    /// The bytecode instruction that does what this unit does.
    pub open spec fn op(self) -> Op {
        match self {
            OpFn::Litr(x) => Op::Litr(x),
            OpFn::Arg(i) => Op::Arg(i),
            OpFn::Get(k) => Op::Get(k),
            OpFn::Add => Op::Add,
            OpFn::Bind => Op::PushLocal,
            OpFn::Unbind => Op::PopLocal,
            OpFn::Store(k) => Op::SetLocal(k),
            OpFn::Discard => Op::Pop,
            OpFn::Branch(end) => Op::JmpZN(end),
            OpFn::Repeat(start) => Op::Jmp(start),
            OpFn::Finish => Op::Ret,
        }
    }

    /// Runs the unit. `ip` comes in as the index of the unit that follows.
    /// `true` ends the run; `false` lets it go on at `ip`.
    pub fn call(
        &self,
        ip: &mut usize,
        args: &[i64],
        stack: &mut Vec<i64>,
        locals: &mut Vec<i64>,
    ) -> (done: bool)
        requires
            !(self.op() is Ret) ==> apply(
                self.op(),
                args@,
                *old(ip) as nat,
                old(stack)@,
                old(locals)@,
            ) is Some,
        ensures
            self.op() is Ret ==> done && *final(ip) == *old(ip) && final(stack)@ == old(stack)@
                && final(locals)@ == old(locals)@,
            !(self.op() is Ret) ==> !done && apply(
                self.op(),
                args@,
                *old(ip) as nat,
                old(stack)@,
                old(locals)@,
            ) == Some(
                Machine { ip: *final(ip) as nat, stack: final(stack)@, locals: final(locals)@ },
            ),
    {
        match self {
            OpFn::Litr(x) => {
                stack.push(*x);
                false
            },
            OpFn::Arg(idx) => {
                stack.push(args[*idx]);
                false
            },
            OpFn::Get(local) => {
                stack.push(locals[locals.len() - *local - 1]);
                false
            },
            OpFn::Add => {
                let x = stack.pop().unwrap();
                let y = stack.pop().unwrap();
                stack.push(x.wrapping_add(y));
                false
            },
            OpFn::Bind => {
                let rhs = stack.pop().unwrap();
                locals.push(rhs);
                false
            },
            OpFn::Unbind => {
                locals.pop();
                false
            },
            OpFn::Store(local) => {
                let rhs = stack.pop().unwrap();
                let local_offs = locals.len() - *local - 1;
                locals.set(local_offs, rhs);
                false
            },
            OpFn::Discard => {
                stack.pop();
                false
            },
            OpFn::Branch(end) => {
                let pred = stack.pop().unwrap();
                if pred <= 0 {
                    *ip = *end;
                }
                false
            },
            OpFn::Repeat(start) => {
                *ip = *start;
                false
            },
            OpFn::Finish => true,
        }
    }
}

/// The bytecode that does what `units` do, slot by slot.
pub open spec fn ops_of(units: Seq<OpFn>) -> Seq<Op> {
    Seq::new(units.len(), |i: int| units[i].op())
}

/// Appends one unit.
fn emit(ops: &mut Vec<OpFn>, unit: OpFn)
    ensures
        final(ops)@ == old(ops)@.push(unit),
        ops_of(final(ops)@) == ops_of(old(ops)@).push(unit.op()),
{
    ops.push(unit);
    assert(ops_of(ops@) =~= ops_of(old(ops)@).push(unit.op()));
}

/// Replaces the unit at `at`.
fn patch(ops: &mut Vec<OpFn>, at: usize, unit: OpFn)
    requires
        at < old(ops)@.len(),
    ensures
        final(ops)@ == old(ops)@.update(at as int, unit),
        ops_of(final(ops)@) == ops_of(old(ops)@).update(at as int, unit.op()),
{
    ops.set(at, unit);
    assert(ops_of(ops@) =~= ops_of(old(ops)@).update(at as int, unit.op()));
}

/// Appends the units of `expr` to `ops`.
fn compile_inner(ops: &mut Vec<OpFn>, expr: &Expr)
    requires
        expr.is_base(),
    ensures
        ops_of(final(ops)@) == ops_of(old(ops)@) + code_of(*expr, old(ops)@.len()),
        final(ops)@.len() == old(ops)@.len() + size(*expr),
    decreases *expr, 0nat,
{
    let ghost o = ops_of(ops@);
    let ghost at = ops@.len();
    proof {
        code_has_size(*expr, at);
    }
    match expr {
        Expr::Litr(x) => {
            emit(ops, OpFn::Litr(*x));
        },
        Expr::Arg(idx) => {
            emit(ops, OpFn::Arg(*idx));
        },
        Expr::Get(local) => {
            emit(ops, OpFn::Get(*local));
        },
        Expr::Add(x, y) => {
            compile_value(ops, x);
            compile_value(ops, y);
            emit(ops, OpFn::Add);
        },
        Expr::Let(rhs, then) => {
            compile_value(ops, rhs);
            emit(ops, OpFn::Bind);
            compile_inner(ops, then);
            emit(ops, OpFn::Unbind);
        },
        Expr::Assign(local, rhs) => {
            compile_value(ops, rhs);
            emit(ops, OpFn::Store(*local));
        },
        Expr::While(pred, body) => {
            let start = ops.len();
            compile_value(ops, pred);
            let branch_fixup = ops.len();
            emit(ops, OpFn::Branch(0));
            compile_inner(ops, body);
            if body.leaves_value() {
                emit(ops, OpFn::Discard);
            }
            emit(ops, OpFn::Repeat(start));
            let end = ops.len();
            patch(ops, branch_fixup, OpFn::Branch(end));
        },
        Expr::Then(a, b) => {
            compile_inner(ops, a);
            if a.leaves_value() {
                emit(ops, OpFn::Discard);
            }
            compile_inner(ops, b);
        },
        Expr::Throw(_) => {},
        Expr::Catch(_) => {},
    }
    assert(ops_of(ops@) =~= o + code_of(*expr, at));
}

/// Appends the units of `expr` to `ops`, and a push of unit behind them
/// where `expr` leaves no value: what stands where a value is used.
fn compile_value(ops: &mut Vec<OpFn>, expr: &Expr)
    requires
        expr.is_base(),
    ensures
        ops_of(final(ops)@) == ops_of(old(ops)@) + valued(*expr, old(ops)@.len()),
        final(ops)@.len() == old(ops)@.len() + vsize(*expr),
    decreases *expr, 1nat,
{
    let ghost o = ops_of(ops@);
    let ghost at = ops@.len();
    proof {
        code_has_size(*expr, at);
    }
    compile_inner(ops, expr);
    if !expr.leaves_value() {
        emit(ops, OpFn::Litr(UNIT));
    }
    assert(ops_of(ops@) =~= o + valued(*expr, at));
}

impl Vm for BytecodeClosures {
    type Program<'a> = Vec<OpFn>;

    /// Trees of the base language.
    open spec fn supports(expr: Expr) -> bool {
        expr.is_base()
    }

    /// Slot by slot, the units do what the bytecode of the tree does.
    open spec fn compiled(expr: Expr, prog: &Vec<OpFn>) -> bool {
        ops_of(prog@) == program_of(expr)
    }

    fn compile<'a>(expr: &'a Expr) -> (prog: Vec<OpFn>) {
        let mut ops = Vec::new();
        assert(ops_of(ops@) =~= Seq::empty());
        compile_inner(&mut ops, expr);
        emit(&mut ops, OpFn::Finish);
        assert(ops_of(ops@) =~= program_of(*expr));
        ops
    }

    fn execute(prog: &Vec<OpFn>, args: &[i64]) -> (res: i64)
        ensures
            halts_with(ops_of(prog@), args@, res),
    {
        let ghost code = ops_of(prog@);
        let ghost mut left: nat;
        let ghost total: nat;
        let ghost fin: Machine;
        proof {
            assert(prog@.len() == prog.len());
            let e = choose|expr: Expr|
                Self::compiled(expr, prog) && Self::supports(expr) && evaluates(expr, args@);
            let fuel = crate::semantics::fuel_for_value(e, args@);
            code_has_size(e, 0);
            assert(holds_at(code, 0, code_of(e, 0)));
            left = code_runs_as_evaluated(e, args@, Seq::empty(), fuel, code, 0, Seq::empty());
            total = left;
            fin = steps(code, args@, initial(), left).unwrap();
            assert forall|expr: Expr|
                Self::compiled(expr, prog) && Self::supports(expr) && evaluates(expr, args@)
                implies yields(expr, args@, result(fin.stack)) by {
                program_returns_value(expr, args@);
            }
        }
        let mut ip: usize = 0;
        let mut stack: Vec<i64> = Vec::new();
        let mut locals: Vec<i64> = Vec::new();
        loop
            invariant
                code == ops_of(prog@),
                halted(code, fin),
                steps(code, args@, Machine { ip: ip as nat, stack: stack@, locals: locals@ }, left)
                    == Some(fin),
                steps(code, args@, initial(), total) == Some(fin),
                forall|expr: Expr|
                    Self::compiled(expr, prog) && Self::supports(expr) && evaluates(expr, args@)
                        ==> yields(expr, args@, result(fin.stack)),
            decreases left,
        {
            proof {
                reveal_with_fuel(steps, 2);
                assert(prog@.len() == prog.len());
            }
            let f = &prog[ip];
            ip += 1;
            if f.call(&mut ip, args, &mut stack, &mut locals) {
                return match stack.pop() {
                    Some(res) => res,
                    None => UNIT,
                };
            }
            proof {
                left = (left - 1) as nat;
            }
        }
    }
}

} // verus!
