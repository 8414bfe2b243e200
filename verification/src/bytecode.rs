//! Bytecode: a flat sequence of instructions, run by a fetch-and-dispatch
//! loop over an instruction pointer, an operand stack and a locals stack.
//!
//! A tree that leaves no value behind pushes nothing. Where the first part
//! of a sequence or the body of a loop leaves a value, a `Pop` drops it; where
//! the value of a tree that leaves none is used, a push of unit follows the
//! tree; and a `Ret` that finds no operand hands out unit.

use vstd::prelude::*;
use crate::pieces::{holds_at, holds_at_parts, holds_one};
use crate::semantics::{eval, evaluates, yields, Outcome};
use crate::{Expr, Vm, UNIT};

verus! {

/// The engine that compiles to [`Op`]s.
pub struct Bytecode;

/// One instruction.
#[derive(Debug, Clone, Copy, PartialEq, Eq)]
pub enum Op {
    /// Pushes the constant.
    Litr(i64),
    /// Pushes the argument at this index.
    Arg(usize),
    /// Pushes the local at this offset from the top of the locals.
    Get(usize),
    /// Pops two operands and pushes their wrapping sum.
    Add,
    /// Pops an operand and makes it the innermost local.
    PushLocal,
    /// Drops the innermost local.
    PopLocal,
    /// Pops an operand into the local at this offset from the top.
    SetLocal(usize),
    /// Drops the top operand.
    Pop,
    /// Pops an operand and jumps to the target if it is zero or negative.
    JmpZN(usize),
    /// Jumps to the target.
    Jmp(usize),
    /// Stops; the top operand is the result, or unit where there is none.
    Ret,
}

/// The state of the machine between two instructions.
pub struct Machine {
    /// The index of the next instruction.
    pub ip: nat,
    /// The operands, the top one last.
    pub stack: Seq<i64>,
    /// The locals, the innermost one last.
    pub locals: Seq<i64>,
}

/// What `op` makes of the operands `stack` and of `locals`, and where the
/// machine goes on when the instruction behind `op` has index `next`; `None`
/// where `op` is `Ret` or lacks an operand, a local or an argument.
pub open spec fn apply(
    op: Op,
    args: Seq<i64>,
    next: nat,
    stack: Seq<i64>,
    locals: Seq<i64>,
) -> Option<
    Machine,
> {
    match op {
        Op::Litr(x) => Some(Machine { ip: next, stack: stack.push(x), locals }),
        Op::Arg(i) => if i < args.len() {
            Some(Machine { ip: next, stack: stack.push(args[i as int]), locals })
        } else {
            None
        },
        Op::Get(k) => if k < locals.len() {
            Some(Machine { ip: next, stack: stack.push(locals[locals.len() - k - 1]), locals })
        } else {
            None
        },
        Op::Add => if stack.len() >= 2 {
            let x = stack[stack.len() - 1];
            let y = stack[stack.len() - 2];
            Some(
                Machine {
                    ip: next,
                    stack: stack.drop_last().drop_last().push(x.wrapping_add(y)),
                    locals,
                },
            )
        } else {
            None
        },
        Op::PushLocal => if stack.len() >= 1 {
            Some(Machine { ip: next, stack: stack.drop_last(), locals: locals.push(stack.last()) })
        } else {
            None
        },
        Op::PopLocal => if locals.len() >= 1 {
            Some(Machine { ip: next, stack, locals: locals.drop_last() })
        } else {
            None
        },
        Op::SetLocal(k) => if stack.len() >= 1 && k < locals.len() {
            Some(
                Machine {
                    ip: next,
                    stack: stack.drop_last(),
                    locals: locals.update(locals.len() - k - 1, stack.last()),
                },
            )
        } else {
            None
        },
        Op::Pop => if stack.len() >= 1 {
            Some(Machine { ip: next, stack: stack.drop_last(), locals })
        } else {
            None
        },
        Op::JmpZN(goto) => if stack.len() >= 1 {
            Some(
                Machine {
                    ip: if stack.last() <= 0 {
                        goto as nat
                    } else {
                        next
                    },
                    stack: stack.drop_last(),
                    locals,
                },
            )
        } else {
            None
        },
        Op::Jmp(goto) => Some(Machine { ip: goto as nat, stack, locals }),
        Op::Ret => None,
    }
}

/// The state after the instruction at `m.ip`, or `None` where that
/// instruction lies outside `code` or [`apply`] gives none.
pub open spec fn step(code: Seq<Op>, args: Seq<i64>, m: Machine) -> Option<Machine> {
    if m.ip >= code.len() {
        None
    } else {
        apply(code[m.ip as int], args, m.ip + 1, m.stack, m.locals)
    }
}

/// The state after `n` instructions from `m`, or `None` where the machine
/// cannot make that many.
pub open spec fn steps(code: Seq<Op>, args: Seq<i64>, m: Machine, n: nat) -> Option<Machine>
    decreases n,
{
    if n == 0 {
        Some(m)
    } else {
        match step(code, args, m) {
            Some(m1) => steps(code, args, m1, (n - 1) as nat),
            None => None,
        }
    }
}

/// The machine stands at a `Ret`.
pub open spec fn halted(code: Seq<Op>, m: Machine) -> bool {
    &&& m.ip < code.len()
    &&& code[m.ip as int] is Ret
}

/// What a `Ret` hands out: the top operand, or unit where there is none.
pub open spec fn result(stack: Seq<i64>) -> i64 {
    if stack.len() > 0 {
        stack.last()
    } else {
        UNIT
    }
}

/// The state in which every run starts.
pub open spec fn initial() -> Machine {
    Machine { ip: 0, stack: Seq::empty(), locals: Seq::empty() }
}

/// Run from its first instruction, `code` stops at a `Ret` that hands out
/// `v`.
pub open spec fn halts_with(code: Seq<Op>, args: Seq<i64>, v: i64) -> bool {
    exists|n: nat|
        (#[trigger] steps(code, args, initial(), n)) matches Some(m) && halted(code, m) && result(
            m.stack,
        ) == v
}

/// Instructions run one after the other: `a + b` steps are `a` steps, then
/// `b` more.
pub proof fn steps_split(code: Seq<Op>, args: Seq<i64>, m: Machine, a: nat, b: nat)
    ensures
        steps(code, args, m, a + b) == match steps(code, args, m, a) {
            Some(m1) => steps(code, args, m1, b),
            None => None,
        },
    decreases a,
{
    if a > 0 {
        if let Some(m1) = step(code, args, m) {
            steps_split(code, args, m1, (a - 1) as nat, b);
            assert((a + b - 1) as nat == (a - 1) as nat + b);
        }
    }
}

/// Two runs from one state that both stop at a `Ret` stop in the same state.
pub proof fn halt_unique(code: Seq<Op>, args: Seq<i64>, m: Machine, n1: nat, n2: nat)
    requires
        steps(code, args, m, n1) matches Some(f) && halted(code, f),
        steps(code, args, m, n2) matches Some(f) && halted(code, f),
    ensures
        steps(code, args, m, n1) == steps(code, args, m, n2),
    decreases n1,
{
    if n1 > 0 && n2 > 0 {
        let m1 = step(code, args, m).unwrap();
        halt_unique(code, args, m1, (n1 - 1) as nat, (n2 - 1) as nat);
    }
}

/// The number of instructions that `e` compiles to.
pub open spec fn size(e: Expr) -> nat
    decreases e, 0nat,
{
    match e {
        Expr::Litr(_) => 1,
        Expr::Arg(_) => 1,
        Expr::Get(_) => 1,
        Expr::Add(x, y) => vsize(*x) + vsize(*y) + 1,
        Expr::Let(rhs, body) => vsize(*rhs) + 1 + size(*body) + 1,
        Expr::Assign(_, rhs) => vsize(*rhs) + 1,
        Expr::While(pred, body) => vsize(*pred) + 1 + size(*body) + discard(*body).len() + 1,
        Expr::Then(a, b) => size(*a) + discard(*a).len() + size(*b),
        Expr::Throw(_) => 0,
        Expr::Catch(_) => 0,
    }
}

/// The number of instructions that `e` compiles to where its value is used.
pub open spec fn vsize(e: Expr) -> nat
    decreases e, 1nat,
{
    size(e) + fill(e).len()
}

/// The `Pop` that follows a subtree whose value nobody uses, if it leaves one.
pub open spec fn discard(e: Expr) -> Seq<Op> {
    if e.returns_value() {
        seq![Op::Pop]
    } else {
        Seq::empty()
    }
}

/// The push of unit that follows a subtree whose value is used, if it leaves
/// none.
pub open spec fn fill(e: Expr) -> Seq<Op> {
    if e.returns_value() {
        Seq::empty()
    } else {
        seq![Op::Litr(UNIT)]
    }
}

/// The instructions that `e` compiles to when the first of them stands at
/// index `at`. A loop is its test, a branch past the loop taken when the test
/// is not positive, its body, a `Pop` if the body leaves a value, and a jump
/// back to the test. The operands of a sum, the value that a `Let` binds,
/// the value that an assignment stores and the test of a loop are compiled
/// as [`valued`] says.
pub open spec fn code_of(e: Expr, at: nat) -> Seq<Op>
    decreases e, 0nat,
{
    match e {
        Expr::Litr(x) => seq![Op::Litr(x)],
        Expr::Arg(i) => seq![Op::Arg(i)],
        Expr::Get(k) => seq![Op::Get(k)],
        Expr::Add(x, y) => valued(*x, at) + valued(*y, at + vsize(*x)) + seq![Op::Add],
        Expr::Let(rhs, body) => valued(*rhs, at) + seq![Op::PushLocal] + code_of(
            *body,
            at + vsize(*rhs) + 1,
        ) + seq![Op::PopLocal],
        Expr::Assign(k, rhs) => valued(*rhs, at) + seq![Op::SetLocal(k)],
        Expr::While(pred, body) => valued(*pred, at) + seq![Op::JmpZN((at + size(e)) as usize)]
            + code_of(*body, at + vsize(*pred) + 1) + discard(*body) + seq![Op::Jmp(at as usize)],
        Expr::Then(a, b) => code_of(*a, at) + discard(*a) + code_of(
            *b,
            at + size(*a) + discard(*a).len(),
        ),
        Expr::Throw(_) => Seq::empty(),
        Expr::Catch(_) => Seq::empty(),
    }
}

/// The instructions of `e` where its value is used: those of `e`, and a push
/// of unit behind them where `e` leaves no value.
pub open spec fn valued(e: Expr, at: nat) -> Seq<Op>
    decreases e, 1nat,
{
    code_of(e, at) + fill(e)
}

/// The whole program for `e`: its instructions from index 0, then `Ret`.
pub open spec fn program_of(e: Expr) -> Seq<Op> {
    code_of(e, 0).push(Op::Ret)
}

/// The code of a tree has the size of the tree, wherever it stands.
pub proof fn code_has_size(e: Expr, at: nat)
    ensures
        code_of(e, at).len() == size(e),
        valued(e, at).len() == vsize(e),
    decreases e,
{
    match e {
        Expr::Litr(_) => {},
        Expr::Arg(_) => {},
        Expr::Get(_) => {},
        Expr::Add(x, y) => {
            code_has_size(*x, at);
            code_has_size(*y, at + vsize(*x));
        },
        Expr::Let(rhs, body) => {
            code_has_size(*rhs, at);
            code_has_size(*body, at + vsize(*rhs) + 1);
        },
        Expr::Assign(_, rhs) => {
            code_has_size(*rhs, at);
        },
        Expr::While(pred, body) => {
            code_has_size(*pred, at);
            code_has_size(*body, at + vsize(*pred) + 1);
        },
        Expr::Then(a, b) => {
            code_has_size(*a, at);
            code_has_size(*b, at + size(*a) + discard(*a).len());
        },
        Expr::Throw(_) => {},
        Expr::Catch(_) => {},
    }
}

/// One instruction is one step.
proof fn one_step(code: Seq<Op>, args: Seq<i64>, m: Machine, m1: Machine)
    requires
        step(code, args, m) == Some(m1),
    ensures
        steps(code, args, m, 1) == Some(m1),
{
    reveal_with_fuel(steps, 2);
}

/// Steps add up.
proof fn chain(code: Seq<Op>, args: Seq<i64>, m0: Machine, a: nat, m1: Machine, b: nat, m2: Machine)
    requires
        steps(code, args, m0, a) == Some(m1),
        steps(code, args, m1, b) == Some(m2),
    ensures
        steps(code, args, m0, a + b) == Some(m2),
{
    steps_split(code, args, m0, a, b);
}

/// The state in which the code of `e`, entered at index `at` over `stack`,
/// leaves the machine when `e` evaluates to `v` and leaves the locals `l`.
pub open spec fn after(e: Expr, at: nat, stack: Seq<i64>, v: i64, l: Seq<i64>) -> Machine {
    Machine {
        ip: at + size(e),
        stack: if e.returns_value() {
            stack.push(v)
        } else {
            stack
        },
        locals: l,
    }
}

/// The state in which the code of `e`, compiled where its value is used and
/// entered at index `at` over `stack`, leaves the machine when `e` evaluates
/// to `v` and leaves the locals `l`.
pub open spec fn after_value(e: Expr, at: nat, stack: Seq<i64>, v: i64, l: Seq<i64>) -> Machine {
    Machine { ip: at + vsize(e), stack: stack.push(v), locals: l }
}

/// The code of a sum does what the sum does.
#[verifier::rlimit(50)]
proof fn add_runs_as_evaluated(
    e: Expr,
    args: Seq<i64>,
    locals: Seq<i64>,
    fuel: nat,
    code: Seq<Op>,
    at: nat,
    stack: Seq<i64>,
) -> (n: nat)
    requires
        e.is_base(),
        e.scoped(locals.len()),
        e.args_within(args.len()),
        eval(e, args, locals, fuel) is Some,
        holds_at(code, at, code_of(e, at)),
        code.len() <= usize::MAX,
        e is Add,
    ensures
        eval(e, args, locals, fuel) matches Some(Outcome::Value(v, l2)) && l2.len() == locals.len()
            && steps(code, args, Machine { ip: at, stack, locals }, n) == Some(
            after(e, at, stack, v, l2),
        ),
    decreases fuel, e, 0nat,
{
    let m0 = Machine { ip: at, stack, locals };
    match e {
        Expr::Add(x, y) => {
            let cx = valued(*x, at);
            let cy = valued(*y, at + vsize(*x));
            code_has_size(*x, at);
            code_has_size(*y, at + vsize(*x));
            holds_at_parts(code, at, cx + cy, seq![Op::Add]);
            holds_at_parts(code, at, cx, cy);
            holds_one(code, at + vsize(*x) + vsize(*y), Op::Add);
            let n1 = valued_runs_as_evaluated(*x, args, locals, fuel, code, at, stack);
            let (a, l1) = match eval(*x, args, locals, fuel) {
                Some(Outcome::Value(a, l1)) => (a, l1),
                _ => (0i64, locals),
            };
            let m1 = after_value(*x, at, stack, a, l1);
            crate::semantics::base_never_throws(*y, args, l1, fuel);
            let n2 = valued_runs_as_evaluated(*y, args, l1, fuel, code, at + vsize(*x), m1.stack);
            let (b, l2) = match eval(*y, args, l1, fuel) {
                Some(Outcome::Value(b, l2)) => (b, l2),
                _ => (0i64, locals),
            };
            let m2 = after_value(*y, at + vsize(*x), m1.stack, b, l2);
            let m3 = after(e, at, stack, a.wrapping_add(b), l2);
            assert(m2.stack.drop_last().drop_last() =~= stack);
            assert(step(code, args, m2) == Some(m3));
            one_step(code, args, m2, m3);
            chain(code, args, m0, n1, m1, n2, m2);
            chain(code, args, m0, n1 + n2, m2, 1, m3);
            n1 + n2 + 1
        },
        _ => 0,
    }
}

/// The code of a `Let` does what the `Let` does.
#[verifier::rlimit(50)]
proof fn let_runs_as_evaluated(
    e: Expr,
    args: Seq<i64>,
    locals: Seq<i64>,
    fuel: nat,
    code: Seq<Op>,
    at: nat,
    stack: Seq<i64>,
) -> (n: nat)
    requires
        e.is_base(),
        e.scoped(locals.len()),
        e.args_within(args.len()),
        eval(e, args, locals, fuel) is Some,
        holds_at(code, at, code_of(e, at)),
        code.len() <= usize::MAX,
        e is Let,
    ensures
        eval(e, args, locals, fuel) matches Some(Outcome::Value(v, l2)) && l2.len() == locals.len()
            && steps(code, args, Machine { ip: at, stack, locals }, n) == Some(
            after(e, at, stack, v, l2),
        ),
    decreases fuel, e, 0nat,
{
    let m0 = Machine { ip: at, stack, locals };
    match e {
        Expr::Let(rhs, body) => {
            let cr = valued(*rhs, at);
            let cb = code_of(*body, at + vsize(*rhs) + 1);
            code_has_size(*rhs, at);
            code_has_size(*body, at + vsize(*rhs) + 1);
            holds_at_parts(code, at, cr + seq![Op::PushLocal] + cb, seq![Op::PopLocal]);
            holds_at_parts(code, at, cr + seq![Op::PushLocal], cb);
            holds_at_parts(code, at, cr, seq![Op::PushLocal]);
            holds_one(code, at + vsize(*rhs), Op::PushLocal);
            holds_one(code, at + vsize(*rhs) + 1 + size(*body), Op::PopLocal);
            let n1 = valued_runs_as_evaluated(*rhs, args, locals, fuel, code, at, stack);
            let (v, l1) = match eval(*rhs, args, locals, fuel) {
                Some(Outcome::Value(v, l1)) => (v, l1),
                _ => (0i64, locals),
            };
            let m1 = after_value(*rhs, at, stack, v, l1);
            let m2 = Machine { ip: at + vsize(*rhs) + 1, stack, locals: l1.push(v) };
            assert(m1.stack.drop_last() =~= stack);
            one_step(code, args, m1, m2);
            let n3 = code_runs_as_evaluated(
                *body,
                args,
                l1.push(v),
                fuel,
                code,
                at + vsize(*rhs) + 1,
                stack,
            );
            let (r, l2) = match eval(*body, args, l1.push(v), fuel) {
                Some(Outcome::Value(r, l2)) => (r, l2),
                _ => (0i64, locals),
            };
            let m3 = after(*body, at + vsize(*rhs) + 1, stack, r, l2);
            let m4 = after(e, at, stack, r, l2.drop_last());
            one_step(code, args, m3, m4);
            chain(code, args, m0, n1, m1, 1, m2);
            chain(code, args, m0, n1 + 1, m2, n3, m3);
            chain(code, args, m0, n1 + 1 + n3, m3, 1, m4);
            n1 + 1 + n3 + 1
        },
        _ => 0,
    }
}

/// The code of an assignment does what the assignment does.
#[verifier::rlimit(50)]
proof fn assign_runs_as_evaluated(
    e: Expr,
    args: Seq<i64>,
    locals: Seq<i64>,
    fuel: nat,
    code: Seq<Op>,
    at: nat,
    stack: Seq<i64>,
) -> (n: nat)
    requires
        e.is_base(),
        e.scoped(locals.len()),
        e.args_within(args.len()),
        eval(e, args, locals, fuel) is Some,
        holds_at(code, at, code_of(e, at)),
        code.len() <= usize::MAX,
        e is Assign,
    ensures
        eval(e, args, locals, fuel) matches Some(Outcome::Value(v, l2)) && l2.len() == locals.len()
            && steps(code, args, Machine { ip: at, stack, locals }, n) == Some(
            after(e, at, stack, v, l2),
        ),
    decreases fuel, e, 0nat,
{
    let m0 = Machine { ip: at, stack, locals };
    match e {
        Expr::Assign(k, rhs) => {
            let cr = valued(*rhs, at);
            code_has_size(*rhs, at);
            holds_at_parts(code, at, cr, seq![Op::SetLocal(k)]);
            holds_one(code, at + vsize(*rhs), Op::SetLocal(k));
            let n1 = valued_runs_as_evaluated(*rhs, args, locals, fuel, code, at, stack);
            let (v, l1) = match eval(*rhs, args, locals, fuel) {
                Some(Outcome::Value(v, l1)) => (v, l1),
                _ => (0i64, locals),
            };
            let m1 = after_value(*rhs, at, stack, v, l1);
            let m2 = after(e, at, stack, crate::UNIT, l1.update(l1.len() - k - 1, v));
            assert(m1.stack.drop_last() =~= stack);
            one_step(code, args, m1, m2);
            chain(code, args, m0, n1, m1, 1, m2);
            n1 + 1
        },
        _ => 0,
    }
}

/// The code of a loop does what the loop does.
#[verifier::rlimit(50)]
proof fn while_runs_as_evaluated(
    e: Expr,
    args: Seq<i64>,
    locals: Seq<i64>,
    fuel: nat,
    code: Seq<Op>,
    at: nat,
    stack: Seq<i64>,
) -> (n: nat)
    requires
        e.is_base(),
        e.scoped(locals.len()),
        e.args_within(args.len()),
        eval(e, args, locals, fuel) is Some,
        holds_at(code, at, code_of(e, at)),
        code.len() <= usize::MAX,
        e is While,
    ensures
        eval(e, args, locals, fuel) matches Some(Outcome::Value(v, l2)) && l2.len() == locals.len()
            && steps(code, args, Machine { ip: at, stack, locals }, n) == Some(
            after(e, at, stack, v, l2),
        ),
    decreases fuel, e, 0nat,
{
    let m0 = Machine { ip: at, stack, locals };
    match e {
        Expr::While(pred, body) => {
            let f = (fuel - 1) as nat;
            let end = at + size(e);
            let cp = valued(*pred, at);
            let cb = code_of(*body, at + vsize(*pred) + 1);
            let d = discard(*body);
            let br = seq![Op::JmpZN(end as usize)];
            code_has_size(*pred, at);
            code_has_size(*body, at + vsize(*pred) + 1);
            holds_at_parts(code, at, cp + br + cb + d, seq![Op::Jmp(at as usize)]);
            holds_at_parts(code, at, cp + br + cb, d);
            holds_at_parts(code, at, cp + br, cb);
            holds_at_parts(code, at, cp, br);
            holds_one(code, at + vsize(*pred), Op::JmpZN(end as usize));
            holds_one(
                code,
                at + vsize(*pred) + 1 + size(*body) + d.len(),
                Op::Jmp(at as usize),
            );
            let n1 = valued_runs_as_evaluated(*pred, args, locals, f, code, at, stack);
            let (c, l1) = match eval(*pred, args, locals, f) {
                Some(Outcome::Value(c, l1)) => (c, l1),
                _ => (0i64, locals),
            };
            let m1 = after_value(*pred, at, stack, c, l1);
            assert(m1.stack.drop_last() =~= stack);
            if c > 0 {
                let m2 = Machine { ip: at + vsize(*pred) + 1, stack, locals: l1 };
                one_step(code, args, m1, m2);
                chain(code, args, m0, n1, m1, 1, m2);
                let n3 = code_runs_as_evaluated(
                    *body,
                    args,
                    l1,
                    f,
                    code,
                    at + vsize(*pred) + 1,
                    stack,
                );
                let (v, l2) = match eval(*body, args, l1, f) {
                    Some(Outcome::Value(v, l2)) => (v, l2),
                    _ => (0i64, locals),
                };
                let m3 = after(*body, at + vsize(*pred) + 1, stack, v, l2);
                chain(code, args, m0, n1 + 1, m2, n3, m3);
                let m4 = Machine {
                    ip: at + vsize(*pred) + 1 + size(*body) + d.len(),
                    stack,
                    locals: l2,
                };
                let n4: nat = if (*body).returns_value() {
                    holds_one(code, at + vsize(*pred) + 1 + size(*body), Op::Pop);
                    assert(m3.stack.drop_last() =~= stack);
                    one_step(code, args, m3, m4);
                    1
                } else {
                    assert(m3 == m4);
                    0
                };
                chain(code, args, m0, n1 + 1 + n3, m3, n4, m4);
                let m5 = Machine { ip: at, stack, locals: l2 };
                one_step(code, args, m4, m5);
                chain(code, args, m0, n1 + 1 + n3 + n4, m4, 1, m5);
                let n6 = code_runs_as_evaluated(e, args, l2, f, code, at, stack);
                let (u, l3) = match eval(e, args, l2, f) {
                    Some(Outcome::Value(u, l3)) => (u, l3),
                    _ => (0i64, locals),
                };
                let m6 = after(e, at, stack, u, l3);
                chain(code, args, m0, n1 + 1 + n3 + n4 + 1, m5, n6, m6);
                n1 + 1 + n3 + n4 + 1 + n6
            } else {
                let m2 = after(e, at, stack, crate::UNIT, l1);
                one_step(code, args, m1, m2);
                chain(code, args, m0, n1, m1, 1, m2);
                n1 + 1
            }
        },
        _ => 0,
    }
}

/// The code of a sequence does what the sequence does.
#[verifier::rlimit(50)]
proof fn then_runs_as_evaluated(
    e: Expr,
    args: Seq<i64>,
    locals: Seq<i64>,
    fuel: nat,
    code: Seq<Op>,
    at: nat,
    stack: Seq<i64>,
) -> (n: nat)
    requires
        e.is_base(),
        e.scoped(locals.len()),
        e.args_within(args.len()),
        eval(e, args, locals, fuel) is Some,
        holds_at(code, at, code_of(e, at)),
        code.len() <= usize::MAX,
        e is Then,
    ensures
        eval(e, args, locals, fuel) matches Some(Outcome::Value(v, l2)) && l2.len() == locals.len()
            && steps(code, args, Machine { ip: at, stack, locals }, n) == Some(
            after(e, at, stack, v, l2),
        ),
    decreases fuel, e, 0nat,
{
    let m0 = Machine { ip: at, stack, locals };
    match e {
        Expr::Then(a, b) => {
            let ca = code_of(*a, at);
            let d = discard(*a);
            let cb = code_of(*b, at + size(*a) + d.len());
            code_has_size(*a, at);
            holds_at_parts(code, at, ca + d, cb);
            holds_at_parts(code, at, ca, d);
            let n1 = code_runs_as_evaluated(*a, args, locals, fuel, code, at, stack);
            let (v, l1) = match eval(*a, args, locals, fuel) {
                Some(Outcome::Value(v, l1)) => (v, l1),
                _ => (0i64, locals),
            };
            let m1 = after(*a, at, stack, v, l1);
            let m2 = Machine { ip: at + size(*a) + d.len(), stack, locals: l1 };
            let n2: nat = if (*a).returns_value() {
                holds_one(code, at + size(*a), Op::Pop);
                assert(m1.stack.drop_last() =~= stack);
                one_step(code, args, m1, m2);
                1
            } else {
                assert(m1 == m2);
                0
            };
            chain(code, args, m0, n1, m1, n2, m2);
            let n3 = code_runs_as_evaluated(
                *b,
                args,
                l1,
                fuel,
                code,
                at + size(*a) + d.len(),
                stack,
            );
            let (r, l2) = match eval(*b, args, l1, fuel) {
                Some(Outcome::Value(r, l2)) => (r, l2),
                _ => (0i64, locals),
            };
            let m3 = after(*b, at + size(*a) + d.len(), stack, r, l2);
            assert(m3 == after(e, at, stack, r, l2));
            chain(code, args, m0, n1 + n2, m2, n3, m3);
            n1 + n2 + n3
        },
        _ => 0,
    }
}

/// The code of a tree does what the tree does: entered at its first
/// instruction, it arrives behind its last one after some `n` steps, with the
/// tree's value pushed if it leaves one, and with the locals as evaluation
/// leaves them.
#[verifier::rlimit(50)]
pub proof fn code_runs_as_evaluated(
    e: Expr,
    args: Seq<i64>,
    locals: Seq<i64>,
    fuel: nat,
    code: Seq<Op>,
    at: nat,
    stack: Seq<i64>,
) -> (n: nat)
    requires
        e.is_base(),
        e.scoped(locals.len()),
        e.args_within(args.len()),
        eval(e, args, locals, fuel) is Some,
        holds_at(code, at, code_of(e, at)),
        code.len() <= usize::MAX,
    ensures
        eval(e, args, locals, fuel) matches Some(Outcome::Value(v, l2)) && l2.len() == locals.len()
            && steps(code, args, Machine { ip: at, stack, locals }, n) == Some(
            after(e, at, stack, v, l2),
        ),
    decreases fuel, e, 1nat,
{
    let m0 = Machine { ip: at, stack, locals };
    match e {
        Expr::Litr(x) => {
            holds_one(code, at, Op::Litr(x));
            one_step(code, args, m0, after(e, at, stack, x, locals));
            1
        },
        Expr::Arg(i) => {
            holds_one(code, at, Op::Arg(i));
            one_step(code, args, m0, after(e, at, stack, args[i as int], locals));
            1
        },
        Expr::Get(k) => {
            holds_one(code, at, Op::Get(k));
            one_step(code, args, m0, after(e, at, stack, locals[locals.len() - k - 1], locals));
            1
        },
        Expr::Add(_, _) => add_runs_as_evaluated(e, args, locals, fuel, code, at, stack),
        Expr::Let(_, _) => let_runs_as_evaluated(e, args, locals, fuel, code, at, stack),
        Expr::Assign(_, _) => assign_runs_as_evaluated(e, args, locals, fuel, code, at, stack),
        Expr::While(_, _) => while_runs_as_evaluated(e, args, locals, fuel, code, at, stack),
        Expr::Then(_, _) => then_runs_as_evaluated(e, args, locals, fuel, code, at, stack),
        Expr::Throw(_) => 0,
        Expr::Catch(_) => 0,
    }
}

/// The code of a tree whose value is used does what the tree does, and
/// leaves the value on the operands: unit where the tree leaves none.
#[verifier::rlimit(50)]
pub proof fn valued_runs_as_evaluated(
    e: Expr,
    args: Seq<i64>,
    locals: Seq<i64>,
    fuel: nat,
    code: Seq<Op>,
    at: nat,
    stack: Seq<i64>,
) -> (n: nat)
    requires
        e.is_base(),
        e.scoped(locals.len()),
        e.args_within(args.len()),
        eval(e, args, locals, fuel) is Some,
        holds_at(code, at, valued(e, at)),
        code.len() <= usize::MAX,
    ensures
        eval(e, args, locals, fuel) matches Some(Outcome::Value(v, l2)) && l2.len() == locals.len()
            && steps(code, args, Machine { ip: at, stack, locals }, n) == Some(
            after_value(e, at, stack, v, l2),
        ),
    decreases fuel, e, 2nat,
{
    code_has_size(e, at);
    holds_at_parts(code, at, code_of(e, at), fill(e));
    let n = code_runs_as_evaluated(e, args, locals, fuel, code, at, stack);
    if e.returns_value() {
        n
    } else {
        crate::semantics::unit_where_nothing_left(e, args, locals, fuel);
        let l2 = match eval(e, args, locals, fuel) {
            Some(Outcome::Value(_, l2)) => l2,
            _ => locals,
        };
        let m0 = Machine { ip: at, stack, locals };
        let m1 = after(e, at, stack, UNIT, l2);
        holds_one(code, at + size(e), Op::Litr(UNIT));
        one_step(code, args, m1, after_value(e, at, stack, UNIT, l2));
        chain(code, args, m0, n, m1, 1, after_value(e, at, stack, UNIT, l2));
        n + 1
    }
}

/// A compiled program returns what its tree evaluates to, and nothing else.
pub proof fn program_returns_value(e: Expr, args: Seq<i64>)
    requires
        e.is_base(),
        e.scoped(0),
        e.args_within(args.len()),
        program_of(e).len() <= usize::MAX,
        exists|v: i64| yields(e, args, v),
    ensures
        forall|v: i64| halts_with(program_of(e), args, v) <==> yields(e, args, v),
{
    let code = program_of(e);
    let fuel = crate::semantics::fuel_for_value(e, args);
    code_has_size(e, 0);
    assert(holds_at(code, 0, code_of(e, 0)));
    let n = code_runs_as_evaluated(e, args, Seq::empty(), fuel, code, 0, Seq::empty());
    let fin = steps(code, args, initial(), n).unwrap();
    let r = result(fin.stack);
    if !e.returns_value() {
        crate::semantics::unit_where_nothing_left(e, args, Seq::empty(), fuel);
    }
    assert(halted(code, fin));
    let exit = crate::Exit::Value(r);
    assert(eval(e, args, Seq::empty(), fuel) matches Some(o) && o.exit() == exit);
    assert(yields(e, args, r));
    assert(halts_with(code, args, r));
    assert forall|v: i64|
        halts_with(code, args, v)
        implies yields(e, args, v) by {
        let k = choose|k: nat| (#[trigger] steps(code, args, initial(), k)) matches Some(m) && halted(code, m)
            && result(m.stack) == v;
        halt_unique(code, args, initial(), n, k);
    }
    assert forall|v: i64|
        yields(e, args, v)
        implies halts_with(code, args, v) by {
        crate::semantics::ends_unique(e, args, crate::Exit::Value(v), crate::Exit::Value(r));
    }
}

/// How many loops a tree holds.
pub open spec fn loops(e: Expr) -> nat
    decreases e,
{
    match e {
        Expr::Litr(_) => 0,
        Expr::Arg(_) => 0,
        Expr::Get(_) => 0,
        Expr::Add(x, y) => loops(*x) + loops(*y),
        Expr::Let(rhs, body) => loops(*rhs) + loops(*body),
        Expr::Assign(_, rhs) => loops(*rhs),
        Expr::While(pred, body) => loops(*pred) + loops(*body) + 1,
        Expr::Then(a, b) => loops(*a) + loops(*b),
        Expr::Throw(x) => loops(*x),
        Expr::Catch(body) => loops(*body),
    }
}

/// How many `Jmp` stand in `code`.
pub open spec fn jumps(code: Seq<Op>) -> nat
    decreases code.len(),
{
    if code.len() == 0 {
        0
    } else {
        jumps(code.drop_last()) + if code.last() is Jmp {
            1nat
        } else {
            0nat
        }
    }
}

/// How many `JmpZN` stand in `code`.
pub open spec fn branches(code: Seq<Op>) -> nat
    decreases code.len(),
{
    if code.len() == 0 {
        0
    } else {
        branches(code.drop_last()) + if code.last() is JmpZN {
            1nat
        } else {
            0nat
        }
    }
}

/// The jumps of a piece of code whose first instruction has index `at` stay
/// inside the piece: a `Jmp` goes back, to its own index at the latest; a
/// `JmpZN` goes forward, as far as just behind the piece, to the
/// instruction behind a `Jmp`; and no `Ret` stands in the piece.
pub open spec fn well_jumped(piece: Seq<Op>, at: nat) -> bool {
    forall|j: int|
        0 <= j < piece.len() ==> match #[trigger] piece[j] {
            Op::Jmp(t) => at <= t <= at + j,
            Op::JmpZN(t) => at + j < t <= at + piece.len() && piece[t - 1 - at] is Jmp,
            Op::Ret => false,
            _ => true,
        }
}

/// The jumps of two pieces are those of the one and those of the other.
proof fn counts_add(a: Seq<Op>, b: Seq<Op>)
    ensures
        jumps(a + b) == jumps(a) + jumps(b),
        branches(a + b) == branches(a) + branches(b),
    decreases b.len(),
{
    if b.len() == 0 {
        assert(a + b =~= a);
    } else {
        assert((a + b).drop_last() =~= a + b.drop_last());
        counts_add(a, b.drop_last());
    }
}

/// One instruction is one jump at most.
proof fn counts_one(op: Op)
    ensures
        jumps(seq![op]) == if op is Jmp {
            1nat
        } else {
            0nat
        },
        branches(seq![op]) == if op is JmpZN {
            1nat
        } else {
            0nat
        },
{
    assert(seq![op].drop_last() =~= Seq::<Op>::empty());
    assert(seq![op].last() == op);
    reveal_with_fuel(jumps, 2);
    reveal_with_fuel(branches, 2);
}

/// Two pieces whose jumps stay inside them make a piece whose jumps stay
/// inside it.
proof fn well_jumped_add(a: Seq<Op>, b: Seq<Op>, at: nat)
    requires
        well_jumped(a, at),
        well_jumped(b, at + a.len()),
    ensures
        well_jumped(a + b, at),
{
    let ab = a + b;
    assert forall|j: int| 0 <= j < ab.len() implies match #[trigger] ab[j] {
        Op::Jmp(t) => at <= t <= at + j,
        Op::JmpZN(t) => at + j < t <= at + ab.len() && ab[t - 1 - at] is Jmp,
        Op::Ret => false,
        _ => true,
    } by {
        if j < a.len() {
            assert(ab[j] == a[j]);
            if let Op::JmpZN(t) = a[j] {
                assert(ab[t - 1 - at] == a[t - 1 - at]);
            }
        } else {
            let i = j - a.len();
            assert(ab[j] == b[i]);
            if let Op::JmpZN(t) = b[i] {
                assert(ab[t - 1 - at] == b[t - 1 - at - a.len()]);
            }
        }
    }
}

/// An instruction that is no jump and no `Ret` is a piece whose jumps stay
/// inside it.
proof fn well_jumped_one(op: Op, at: nat)
    requires
        !(op is Jmp),
        !(op is JmpZN),
        !(op is Ret),
    ensures
        well_jumped(seq![op], at),
{
    assert forall|j: int| 0 <= j < seq![op].len() implies match #[trigger] seq![op][j] {
        Op::Jmp(t) => at <= t <= at + j,
        Op::JmpZN(t) => at + j < t <= at + seq![op].len() && seq![op][t - 1 - at] is Jmp,
        Op::Ret => false,
        _ => true,
    } by {
        assert(seq![op][j] == op);
    }
}

/// The code of a loop jumps as the loop asks.
#[verifier::rlimit(50)]
proof fn loop_is_well_jumped(e: Expr, at: nat)
    requires
        e.is_base(),
        e is While,
        at + size(e) <= usize::MAX,
    ensures
        well_jumped(code_of(e, at), at),
        jumps(code_of(e, at)) == loops(e),
        branches(code_of(e, at)) == loops(e),
    decreases e, 0nat,
{
    let code = code_of(e, at);
    code_has_size(e, at);
    match e {
        Expr::While(pred, body) => {
            let vp = valued(*pred, at);
            let cb = code_of(*body, at + vsize(*pred) + 1);
            let d = discard(*body);
            let br = seq![Op::JmpZN((at + size(e)) as usize)];
            let back = seq![Op::Jmp(at as usize)];
            code_has_size(*pred, at);
            code_has_size(*body, at + vsize(*pred) + 1);
            valued_is_well_jumped(*pred, at);
            code_is_well_jumped(*body, at + vsize(*pred) + 1);
            counts_one(Op::JmpZN((at + size(e)) as usize));
            counts_one(Op::Jmp(at as usize));
            counts_one(Op::Pop);
            counts_add(vp, br);
            counts_add(vp + br, cb);
            counts_add(vp + br + cb, d);
            counts_add(vp + br + cb + d, back);
            let p = vsize(*pred) as int;
            let q = p + 1 + size(*body);
            assert forall|j: int| 0 <= j < code.len() implies match #[trigger] code[j] {
                Op::Jmp(t) => at <= t <= at + j,
                Op::JmpZN(t) => at + j < t <= at + code.len() && code[t - 1 - at] is Jmp,
                Op::Ret => false,
                _ => true,
            } by {
                assert(code[code.len() - 1] == Op::Jmp(at as usize));
                if j < p {
                    assert(code[j] == vp[j]);
                    if let Op::JmpZN(t) = vp[j] {
                        assert(code[t - 1 - at] == vp[t - 1 - at]);
                    }
                } else if j == p {
                    assert(code[j] == Op::JmpZN((at + size(e)) as usize));
                } else if j < q {
                    let i = j - p - 1;
                    assert(code[j] == cb[i]);
                    if let Op::JmpZN(t) = cb[i] {
                        assert(code[t - 1 - at] == cb[t - 1 - at - p - 1]);
                    }
                } else if j < code.len() - 1 {
                    assert(code[j] == d[j - q]);
                }
            }
        },
        _ => {},
    }
}

/// The code of a tree jumps as its loops ask: it holds one `Jmp` and one
/// `JmpZN` for every loop of the tree, and they stay inside the code.
#[verifier::rlimit(50)]
pub proof fn code_is_well_jumped(e: Expr, at: nat)
    requires
        e.is_base(),
        at + size(e) <= usize::MAX,
    ensures
        well_jumped(code_of(e, at), at),
        jumps(code_of(e, at)) == loops(e),
        branches(code_of(e, at)) == loops(e),
    decreases e, 1nat,
{
    let code = code_of(e, at);
    code_has_size(e, at);
    match e {
        Expr::Litr(x) => {
            well_jumped_one(Op::Litr(x), at);
            counts_one(Op::Litr(x));
        },
        Expr::Arg(i) => {
            well_jumped_one(Op::Arg(i), at);
            counts_one(Op::Arg(i));
        },
        Expr::Get(k) => {
            well_jumped_one(Op::Get(k), at);
            counts_one(Op::Get(k));
        },
        Expr::Add(x, y) => {
            let vx = valued(*x, at);
            let vy = valued(*y, at + vsize(*x));
            code_has_size(*x, at);
            code_has_size(*y, at + vsize(*x));
            valued_is_well_jumped(*x, at);
            valued_is_well_jumped(*y, at + vsize(*x));
            well_jumped_one(Op::Add, at + vsize(*x) + vsize(*y));
            counts_one(Op::Add);
            well_jumped_add(vx, vy, at);
            well_jumped_add(vx + vy, seq![Op::Add], at);
            counts_add(vx, vy);
            counts_add(vx + vy, seq![Op::Add]);
        },
        Expr::Let(rhs, body) => {
            let vr = valued(*rhs, at);
            let cb = code_of(*body, at + vsize(*rhs) + 1);
            code_has_size(*rhs, at);
            code_has_size(*body, at + vsize(*rhs) + 1);
            valued_is_well_jumped(*rhs, at);
            code_is_well_jumped(*body, at + vsize(*rhs) + 1);
            well_jumped_one(Op::PushLocal, at + vsize(*rhs));
            well_jumped_one(Op::PopLocal, at + vsize(*rhs) + 1 + size(*body));
            counts_one(Op::PushLocal);
            counts_one(Op::PopLocal);
            well_jumped_add(vr, seq![Op::PushLocal], at);
            well_jumped_add(vr + seq![Op::PushLocal], cb, at);
            well_jumped_add(vr + seq![Op::PushLocal] + cb, seq![Op::PopLocal], at);
            counts_add(vr, seq![Op::PushLocal]);
            counts_add(vr + seq![Op::PushLocal], cb);
            counts_add(vr + seq![Op::PushLocal] + cb, seq![Op::PopLocal]);
        },
        Expr::Assign(k, rhs) => {
            let vr = valued(*rhs, at);
            code_has_size(*rhs, at);
            valued_is_well_jumped(*rhs, at);
            well_jumped_one(Op::SetLocal(k), at + vsize(*rhs));
            counts_one(Op::SetLocal(k));
            well_jumped_add(vr, seq![Op::SetLocal(k)], at);
            counts_add(vr, seq![Op::SetLocal(k)]);
        },
        Expr::While(_, _) => {
            loop_is_well_jumped(e, at);
        },
        Expr::Then(a, b) => {
            let ca = code_of(*a, at);
            let d = discard(*a);
            let cb = code_of(*b, at + size(*a) + d.len());
            code_has_size(*a, at);
            code_has_size(*b, at + size(*a) + d.len());
            code_is_well_jumped(*a, at);
            code_is_well_jumped(*b, at + size(*a) + d.len());
            counts_one(Op::Pop);
            if (*a).returns_value() {
                well_jumped_one(Op::Pop, at + size(*a));
            }
            well_jumped_add(ca, d, at);
            well_jumped_add(ca + d, cb, at);
            counts_add(ca, d);
            counts_add(ca + d, cb);
        },
        Expr::Throw(_) => {},
        Expr::Catch(_) => {},
    }
}

/// The code of a tree where its value is used jumps as the code of the tree
/// does: the push of unit adds no jump.
pub proof fn valued_is_well_jumped(e: Expr, at: nat)
    requires
        e.is_base(),
        at + size(e) <= usize::MAX,
    ensures
        well_jumped(valued(e, at), at),
        jumps(valued(e, at)) == loops(e),
        branches(valued(e, at)) == loops(e),
    decreases e, 2nat,
{
    let code = code_of(e, at);
    code_has_size(e, at);
    code_is_well_jumped(e, at);
    counts_one(Op::Litr(UNIT));
    counts_add(code, fill(e));
    if e.returns_value() {
        assert(code + fill(e) =~= code);
    } else {
        well_jumped_one(Op::Litr(UNIT), at + size(e));
        well_jumped_add(code, fill(e), at);
    }
}

/// Every `Jmp` of `ops` goes back, to its own index at the latest; every
/// `JmpZN` goes forward, to an instruction of `ops` that stands behind a
/// `Jmp`; and a `Ret` stands at the end only.
pub open spec fn jumps_in_place(ops: Seq<Op>) -> bool {
    forall|j: int|
        0 <= j < ops.len() ==> match #[trigger] ops[j] {
            Op::Jmp(t) => t <= j,
            Op::JmpZN(t) => j < t < ops.len() && ops[t - 1] is Jmp,
            Op::Ret => j == ops.len() - 1,
            _ => true,
        }
}

/// A program ends in its only `Ret`, its jumps are in place, and it holds
/// one `Jmp` and one `JmpZN` for every loop of its tree.
pub proof fn program_is_well_jumped(e: Expr)
    requires
        e.is_base(),
        program_of(e).len() <= usize::MAX,
    ensures
        program_of(e).len() >= 1,
        program_of(e).last() is Ret,
        jumps_in_place(program_of(e)),
        jumps(program_of(e)) == loops(e),
        branches(program_of(e)) == loops(e),
{
    let code = code_of(e, 0);
    let ops = program_of(e);
    code_has_size(e, 0);
    code_is_well_jumped(e, 0);
    counts_one(Op::Ret);
    assert(ops =~= code + seq![Op::Ret]);
    counts_add(code, seq![Op::Ret]);
    assert forall|j: int| 0 <= j < ops.len() implies match #[trigger] ops[j] {
        Op::Jmp(t) => t <= j,
        Op::JmpZN(t) => j < t < ops.len() && ops[t - 1] is Jmp,
        Op::Ret => j == ops.len() - 1,
        _ => true,
    } by {
        if j < code.len() {
            assert(ops[j] == code[j]);
            if let Op::JmpZN(t) = code[j] {
                assert(ops[t - 1] == code[t - 1]);
            }
        }
    }
}

/// Appends the instructions of `expr` to `ops`.
fn compile_inner(ops: &mut Vec<Op>, expr: &Expr)
    requires
        expr.is_base(),
    ensures
        final(ops)@ == old(ops)@ + code_of(*expr, old(ops)@.len()),
    decreases *expr, 0nat,
{
    let ghost o = ops@;
    let ghost at = ops@.len();
    match expr {
        Expr::Litr(x) => {
            ops.push(Op::Litr(*x));
            assert(ops@ =~= o + code_of(*expr, at));
        },
        Expr::Arg(idx) => {
            ops.push(Op::Arg(*idx));
            assert(ops@ =~= o + code_of(*expr, at));
        },
        Expr::Get(local) => {
            ops.push(Op::Get(*local));
            assert(ops@ =~= o + code_of(*expr, at));
        },
        Expr::Add(x, y) => {
            compile_value(ops, x);
            proof {
                code_has_size(**x, at);
            }
            compile_value(ops, y);
            ops.push(Op::Add);
            assert(ops@ =~= o + code_of(*expr, at));
        },
        Expr::Let(rhs, then) => {
            compile_value(ops, rhs);
            ops.push(Op::PushLocal);
            proof {
                code_has_size(**rhs, at);
            }
            compile_inner(ops, then);
            ops.push(Op::PopLocal);
            assert(ops@ =~= o + code_of(*expr, at));
        },
        Expr::Assign(local, rhs) => {
            compile_value(ops, rhs);
            ops.push(Op::SetLocal(*local));
            assert(ops@ =~= o + code_of(*expr, at));
        },
        Expr::While(pred, body) => {
            let start = ops.len();
            compile_value(ops, pred);
            let branch_fixup = ops.len();
            ops.push(Op::JmpZN(0));
            proof {
                code_has_size(**pred, at);
                code_has_size(**body, at + vsize(**pred) + 1);
            }
            compile_inner(ops, body);
            if body.leaves_value() {
                ops.push(Op::Pop);
            }
            ops.push(Op::Jmp(start));
            let end = ops.len();
            ops.set(branch_fixup, Op::JmpZN(end));
            assert(ops@ =~= o + code_of(*expr, at));
        },
        Expr::Then(a, b) => {
            compile_inner(ops, a);
            if a.leaves_value() {
                ops.push(Op::Pop);
            }
            proof {
                code_has_size(**a, at);
            }
            compile_inner(ops, b);
            assert(ops@ =~= o + code_of(*expr, at));
        },
        Expr::Throw(_) => {
            assert(ops@ =~= o + code_of(*expr, at));
        },
        Expr::Catch(_) => {
            assert(ops@ =~= o + code_of(*expr, at));
        },
    }
}

/// Appends the instructions of `expr` to `ops`, and a push of unit behind
/// them where `expr` leaves no value: what stands where a value is used.
fn compile_value(ops: &mut Vec<Op>, expr: &Expr)
    requires
        expr.is_base(),
    ensures
        final(ops)@ == old(ops)@ + valued(*expr, old(ops)@.len()),
    decreases *expr, 1nat,
{
    let ghost o = ops@;
    compile_inner(ops, expr);
    if !expr.leaves_value() {
        ops.push(Op::Litr(UNIT));
    }
    assert(ops@ =~= o + valued(*expr, o.len()));
}

impl Vm for Bytecode {
    type Program<'a> = Vec<Op>;

    /// Trees of the base language.
    open spec fn supports(expr: Expr) -> bool {
        expr.is_base()
    }

    /// The program is the code that [`program_of`] gives for the tree.
    open spec fn compiled(expr: Expr, prog: &Vec<Op>) -> bool {
        prog@ == program_of(expr)
    }

    fn compile<'a>(expr: &'a Expr) -> (prog: Vec<Op>)
        ensures
            prog@.len() >= 1,
            prog@.last() is Ret,
            jumps_in_place(prog@),
            jumps(prog@) == loops(*expr),
            branches(prog@) == loops(*expr),
    {
        let mut ops = Vec::new();
        compile_inner(&mut ops, expr);
        ops.push(Op::Ret);
        assert(ops@ =~= program_of(*expr));
        proof {
            assert(ops@.len() == ops.len());
            program_is_well_jumped(*expr);
        }
        ops
    }

    fn execute(prog: &Vec<Op>, args: &[i64]) -> (res: i64)
        ensures
            halts_with(prog@, args@, res),
    {
        let ghost code = prog@;
        let ghost mut left: nat;
        let ghost total: nat;
        let ghost fin: Machine;
        proof {
            assert(prog@.len() == prog.len());
            let e = choose|expr: Expr|
                Self::compiled(expr, prog) && Self::supports(expr) && evaluates(expr, args@);
            let fuel = crate::semantics::fuel_for_value(e, args@);
            code_has_size(e, 0);
            assert(holds_at(code, 0, code_of(e, 0)));
            left = code_runs_as_evaluated(e, args@, Seq::empty(), fuel, code, 0, Seq::empty());
            total = left;
            fin = steps(code, args@, initial(), left).unwrap();
            assert forall|expr: Expr|
                Self::compiled(expr, prog) && Self::supports(expr) && evaluates(expr, args@)
                implies yields(expr, args@, result(fin.stack)) by {
                program_returns_value(expr, args@);
            }
        }
        let mut ip: usize = 0;
        let mut stack: Vec<i64> = Vec::new();
        let mut locals: Vec<i64> = Vec::new();
        loop
            invariant
                code == prog@,
                halted(code, fin),
                steps(code, args@, Machine { ip: ip as nat, stack: stack@, locals: locals@ }, left)
                    == Some(fin),
                steps(code, args@, initial(), total) == Some(fin),
                forall|expr: Expr|
                    Self::compiled(expr, prog) && Self::supports(expr) && evaluates(expr, args@)
                        ==> yields(expr, args@, result(fin.stack)),
            decreases left,
        {
            proof {
                reveal_with_fuel(steps, 2);
                assert(prog@.len() == prog.len());
            }
            let op = prog[ip];
            ip += 1;
            match op {
                Op::Litr(x) => stack.push(x),
                Op::Arg(idx) => stack.push(args[idx]),
                Op::Get(local) => stack.push(locals[locals.len() - local - 1]),
                Op::Add => {
                    let x = stack.pop().unwrap();
                    let y = stack.pop().unwrap();
                    stack.push(x.wrapping_add(y));
                },
                Op::PushLocal => {
                    let v = stack.pop().unwrap();
                    locals.push(v);
                },
                Op::PopLocal => {
                    locals.pop();
                },
                Op::SetLocal(local) => {
                    let rhs = stack.pop().unwrap();
                    let local_offs = locals.len() - local - 1;
                    locals.set(local_offs, rhs);
                },
                Op::Pop => {
                    stack.pop();
                },
                Op::JmpZN(goto) => {
                    if stack.pop().unwrap() <= 0 {
                        ip = goto;
                    }
                },
                Op::Jmp(goto) => ip = goto,
                Op::Ret => {
                    return match stack.pop() {
                        Some(res) => res,
                        None => UNIT,
                    };
                },
            }
            proof {
                left = (left - 1) as nat;
            }
        }
    }
}

} // verus!
