//! Register closures: the closures engine with the two innermost locals kept
//! in two registers that every call is handed, and only the others in the
//! buffer.
//!
//! `r[0]` is the innermost local and `r[1]` the one next to it. A `Let`
//! spills `r[1]` to the first free slot of the buffer, moves `r[0]` to
//! `r[1]` and puts the new local in `r[0]`; when its body is done it moves
//! the registers back and reloads `r[1]` from that slot. A local at lexical
//! offset `k >= 2` is therefore found `k - 1` slots below the first free one.

use vstd::prelude::*;
use crate::frame::{store, written};
use crate::semantics::{eval, evaluates, yields, Outcome};
use crate::{Expr, Vm, UNIT};

verus! {

/// The engine that compiles to a tree of [`Func`]s that pass two registers.
pub struct RegisterClosures;

/// How many of the innermost locals are kept in registers.
pub const REG_COUNT: usize = 2;

/// One unit of compiled code: the variant says which code it is, the fields
/// are what it captured when it was made.
#[derive(Debug, PartialEq, Eq)]
pub enum Func {
    /// The captured constant.
    Litr(i64),
    /// The argument at the captured index.
    Arg(usize),
    /// The innermost local, from `r[0]`.
    Get0,
    /// The local next to the innermost, from `r[1]`.
    Get1,
    /// The local at the captured lexical offset, from the buffer.
    Get(usize),
    /// The operand plus one.
    AddOne(Box<Func>),
    /// The operand plus the captured constant.
    AddLitr(Box<Func>, i64),
    /// The operand plus the second argument.
    AddArg1(Box<Func>),
    /// The sum of both operands.
    Add(Box<Func>, Box<Func>),
    /// Binds the first unit's value for the second.
    Let(Box<Func>, Box<Func>),
    /// Stores the operand in `r[0]`.
    Store0(Box<Func>),
    /// Stores the operand in `r[1]`.
    Store1(Box<Func>),
    /// Stores the operand in the buffer, in the local at the captured
    /// lexical offset.
    Store(usize, Box<Func>),
    /// Calls the second unit for as long as the first is positive.
    While(Box<Func>, Box<Func>),
    /// Calls the first unit, then the second.
    Then(Box<Func>, Box<Func>),
}

/// What a call leaves behind: its value, the buffer and the two registers.
pub struct Regs {
    /// The value returned.
    pub value: i64,
    /// The buffer.
    pub frame: Seq<i64>,
    /// `r[0]`.
    pub r0: i64,
    /// `r[1]`.
    pub r1: i64,
}

impl Func {
    /// What a call of the unit leaves behind when `frame` is the buffer,
    /// `top` its first free slot and `r0`, `r1` the registers; `None` where a
    /// loop nest iterates more than `fuel` deep, or where the unit reaches
    /// for a slot or an argument that is not there.
    pub open spec fn run(
        self,
        args: Seq<i64>,
        frame: Seq<i64>,
        top: nat,
        r0: i64,
        r1: i64,
        fuel: nat,
    ) -> Option<Regs>
        decreases fuel, self,
    {
        if top > frame.len() {
            None
        } else {
            match self {
                Func::Litr(x) => Some(Regs { value: x, frame, r0, r1 }),
                Func::Arg(i) => if i < args.len() {
                    Some(Regs { value: args[i as int], frame, r0, r1 })
                } else {
                    None
                },
                Func::Get0 => Some(Regs { value: r0, frame, r0, r1 }),
                Func::Get1 => Some(Regs { value: r1, frame, r0, r1 }),
                Func::Get(k) => if 2 <= k < top {
                    Some(Regs { value: frame[top + 1 - k], frame, r0, r1 })
                } else {
                    None
                },
                Func::AddOne(x) => match (*x).run(args, frame, top, r0, r1, fuel) {
                    Some(a) => Some(Regs { value: a.value.wrapping_add(1), ..a }),
                    None => None,
                },
                Func::AddLitr(x, y) => match (*x).run(args, frame, top, r0, r1, fuel) {
                    Some(a) => Some(Regs { value: a.value.wrapping_add(y), ..a }),
                    None => None,
                },
                Func::AddArg1(x) => match (*x).run(args, frame, top, r0, r1, fuel) {
                    Some(a) => if 1 < args.len() {
                        Some(Regs { value: a.value.wrapping_add(args[1]), ..a })
                    } else {
                        None
                    },
                    None => None,
                },
                Func::Add(x, y) => match (*x).run(args, frame, top, r0, r1, fuel) {
                    Some(a) => match (*y).run(args, a.frame, top, a.r0, a.r1, fuel) {
                        Some(b) => Some(Regs { value: a.value.wrapping_add(b.value), ..b }),
                        None => None,
                    },
                    None => None,
                },
                Func::Let(rhs, then) => match (*rhs).run(args, frame, top, r0, r1, fuel) {
                    Some(a) => match (*then).run(
                        args,
                        written(a.frame, top, a.r1),
                        top + 1,
                        a.value,
                        a.r0,
                        fuel,
                    ) {
                        Some(b) => if top < b.frame.len() {
                            Some(
                                Regs {
                                    value: b.value,
                                    frame: b.frame,
                                    r0: b.r1,
                                    r1: b.frame[top as int],
                                },
                            )
                        } else {
                            None
                        },
                        None => None,
                    },
                    None => None,
                },
                Func::Store0(rhs) => match (*rhs).run(args, frame, top, r0, r1, fuel) {
                    Some(a) => Some(Regs { value: UNIT, frame: a.frame, r0: a.value, r1: a.r1 }),
                    None => None,
                },
                Func::Store1(rhs) => match (*rhs).run(args, frame, top, r0, r1, fuel) {
                    Some(a) => Some(Regs { value: UNIT, frame: a.frame, r0: a.r0, r1: a.value }),
                    None => None,
                },
                Func::Store(k, rhs) => match (*rhs).run(args, frame, top, r0, r1, fuel) {
                    Some(a) => if 2 <= k < top <= a.frame.len() {
                        Some(
                            Regs {
                                value: UNIT,
                                frame: a.frame.update(top + 1 - k, a.value),
                                r0: a.r0,
                                r1: a.r1,
                            },
                        )
                    } else {
                        None
                    },
                    None => None,
                },
                Func::While(pred, body) => if fuel == 0 {
                    None
                } else {
                    match (*pred).run(args, frame, top, r0, r1, (fuel - 1) as nat) {
                        Some(c) => if c.value > 0 {
                            match (*body).run(args, c.frame, top, c.r0, c.r1, (fuel - 1) as nat) {
                                Some(b) => self.run(
                                    args,
                                    b.frame,
                                    top,
                                    b.r0,
                                    b.r1,
                                    (fuel - 1) as nat,
                                ),
                                None => None,
                            }
                        } else {
                            Some(Regs { value: UNIT, ..c })
                        },
                        None => None,
                    }
                },
                Func::Then(a, b) => match (*a).run(args, frame, top, r0, r1, fuel) {
                    Some(a) => (*b).run(args, a.frame, top, a.r0, a.r1, fuel),
                    None => None,
                },
            }
        }
    }

    /// A call never shrinks the buffer.
    pub proof fn run_keeps_slots(
        self,
        args: Seq<i64>,
        frame: Seq<i64>,
        top: nat,
        r0: i64,
        r1: i64,
        fuel: nat,
    )
        ensures
            self.run(args, frame, top, r0, r1, fuel) matches Some(a) ==> a.frame.len()
                >= frame.len(),
        decreases fuel, self,
    {
        match self {
            Func::Litr(_) => {},
            Func::Arg(_) => {},
            Func::Get0 => {},
            Func::Get1 => {},
            Func::Get(_) => {},
            Func::AddOne(x) => (*x).run_keeps_slots(args, frame, top, r0, r1, fuel),
            Func::AddLitr(x, _) => (*x).run_keeps_slots(args, frame, top, r0, r1, fuel),
            Func::AddArg1(x) => (*x).run_keeps_slots(args, frame, top, r0, r1, fuel),
            Func::Add(x, y) => {
                (*x).run_keeps_slots(args, frame, top, r0, r1, fuel);
                if let Some(a) = (*x).run(args, frame, top, r0, r1, fuel) {
                    (*y).run_keeps_slots(args, a.frame, top, a.r0, a.r1, fuel);
                }
            },
            Func::Let(rhs, then) => {
                (*rhs).run_keeps_slots(args, frame, top, r0, r1, fuel);
                if let Some(a) = (*rhs).run(args, frame, top, r0, r1, fuel) {
                    (*then).run_keeps_slots(
                        args,
                        written(a.frame, top, a.r1),
                        top + 1,
                        a.value,
                        a.r0,
                        fuel,
                    );
                }
            },
            Func::Store0(rhs) => (*rhs).run_keeps_slots(args, frame, top, r0, r1, fuel),
            Func::Store1(rhs) => (*rhs).run_keeps_slots(args, frame, top, r0, r1, fuel),
            Func::Store(_, rhs) => (*rhs).run_keeps_slots(args, frame, top, r0, r1, fuel),
            Func::While(pred, body) => {
                if fuel > 0 {
                    let f = (fuel - 1) as nat;
                    (*pred).run_keeps_slots(args, frame, top, r0, r1, f);
                    if let Some(c) = (*pred).run(args, frame, top, r0, r1, f) {
                        if c.value > 0 {
                            (*body).run_keeps_slots(args, c.frame, top, c.r0, c.r1, f);
                            if let Some(b) = (*body).run(args, c.frame, top, c.r0, c.r1, f) {
                                self.run_keeps_slots(args, b.frame, top, b.r0, b.r1, f);
                            }
                        }
                    }
                }
            },
            Func::Then(a, b) => {
                (*a).run_keeps_slots(args, frame, top, r0, r1, fuel);
                if let Some(a) = (*a).run(args, frame, top, r0, r1, fuel) {
                    (*b).run_keeps_slots(args, a.frame, top, a.r0, a.r1, fuel);
                }
            },
        }
    }

    /// Calls the unit with `locals` as the buffer, `top` as its first free
    /// slot and `r` as the registers.
    pub fn invoke(
        &self,
        args: &[i64],
        locals: &mut Vec<i64>,
        top: usize,
        r: &mut [i64; 2],
        Ghost(fuel): Ghost<nat>,
    ) -> (res: i64)
        requires
            self.run(args@, old(locals)@, top as nat, old(r)@[0], old(r)@[1], fuel) is Some,
        ensures
            self.run(args@, old(locals)@, top as nat, old(r)@[0], old(r)@[1], fuel) == Some(
                Regs { value: res, frame: final(locals)@, r0: final(r)@[0], r1: final(r)@[1] },
            ),
            final(locals)@.len() >= old(locals)@.len(),
        decreases fuel, *self,
    {
        proof {
            self.run_keeps_slots(args@, locals@, top as nat, r@[0], r@[1], fuel);
        }
        match self {
            Func::Litr(x) => *x,
            Func::Arg(idx) => args[*idx],
            Func::Get0 => r[0],
            Func::Get1 => r[1],
            Func::Get(local) => locals[top - (*local - 1)],
            Func::AddOne(x) => x.invoke(args, locals, top, r, Ghost(fuel)).wrapping_add(1),
            Func::AddLitr(x, y) => x.invoke(args, locals, top, r, Ghost(fuel)).wrapping_add(*y),
            Func::AddArg1(x) => x.invoke(args, locals, top, r, Ghost(fuel)).wrapping_add(args[1]),
            Func::Add(x, y) => {
                let a = x.invoke(args, locals, top, r, Ghost(fuel));
                let b = y.invoke(args, locals, top, r, Ghost(fuel));
                a.wrapping_add(b)
            },
            Func::Let(rhs, then) => {
                let rhs = rhs.invoke(args, locals, top, r, Ghost(fuel));
                store(locals, top, r[1]);
                r[1] = r[0];
                r[0] = rhs;
                proof {
                    then.run_keeps_slots(args@, locals@, (top + 1) as nat, r@[0], r@[1], fuel);
                }
                let res = then.invoke(args, locals, top + 1, r, Ghost(fuel));
                r[0] = r[1];
                r[1] = locals[top];
                res
            },
            Func::Store0(rhs) => {
                let v = rhs.invoke(args, locals, top, r, Ghost(fuel));
                r[0] = v;
                UNIT
            },
            Func::Store1(rhs) => {
                let v = rhs.invoke(args, locals, top, r, Ghost(fuel));
                r[1] = v;
                UNIT
            },
            Func::Store(local, rhs) => {
                let rhs = rhs.invoke(args, locals, top, r, Ghost(fuel));
                locals.set(top - (*local - 1), rhs);
                UNIT
            },
            Func::While(pred, body) => {
                let ghost mut left = fuel;
                loop
                    invariant_except_break
                        self.run(args@, locals@, top as nat, r@[0], r@[1], left) is Some,
                        self.run(args@, locals@, top as nat, r@[0], r@[1], left) == self.run(
                            args@,
                            old(locals)@,
                            top as nat,
                            old(r)@[0],
                            old(r)@[1],
                            fuel,
                        ),
                    invariant
                        *self == Func::While(*pred, *body),
                        locals@.len() >= old(locals)@.len(),
                        left <= fuel,
                    ensures
                        self.run(args@, old(locals)@, top as nat, old(r)@[0], old(r)@[1], fuel)
                            == Some(Regs { value: UNIT, frame: locals@, r0: r@[0], r1: r@[1] }),
                    decreases left,
                {
                    let c = pred.invoke(args, locals, top, r, Ghost((left - 1) as nat));
                    if c > 0 {
                        body.invoke(args, locals, top, r, Ghost((left - 1) as nat));
                        proof {
                            left = (left - 1) as nat;
                        }
                    } else {
                        break;
                    }
                }
                UNIT
            },
            Func::Then(a, b) => {
                a.invoke(args, locals, top, r, Ghost(fuel));
                b.invoke(args, locals, top, r, Ghost(fuel))
            },
        }
    }
}

/// The unit that `e` compiles to. The sums whose right operand is the
/// constant 1, another constant or the second argument become one unit each,
/// and the two innermost locals are read and written in the registers.
pub open spec fn func_of(e: Expr) -> Func
    decreases e,
{
    match e {
        Expr::Litr(x) => Func::Litr(x),
        Expr::Arg(i) => Func::Arg(i),
        Expr::Get(k) => if k == 0 {
            Func::Get0
        } else if k == 1 {
            Func::Get1
        } else {
            Func::Get(k)
        },
        Expr::Add(x, y) => match *y {
            Expr::Litr(c) => if c == 1 {
                Func::AddOne(Box::new(func_of(*x)))
            } else {
                Func::AddLitr(Box::new(func_of(*x)), c)
            },
            Expr::Arg(i) => if i == 1 {
                Func::AddArg1(Box::new(func_of(*x)))
            } else {
                Func::Add(Box::new(func_of(*x)), Box::new(func_of(*y)))
            },
            _ => Func::Add(Box::new(func_of(*x)), Box::new(func_of(*y))),
        },
        Expr::Let(rhs, body) => Func::Let(Box::new(func_of(*rhs)), Box::new(func_of(*body))),
        Expr::Assign(k, rhs) => if k == 0 {
            Func::Store0(Box::new(func_of(*rhs)))
        } else if k == 1 {
            Func::Store1(Box::new(func_of(*rhs)))
        } else {
            Func::Store(k, Box::new(func_of(*rhs)))
        },
        Expr::While(pred, body) => Func::While(Box::new(func_of(*pred)), Box::new(func_of(*body))),
        Expr::Then(a, b) => Func::Then(Box::new(func_of(*a)), Box::new(func_of(*b))),
        Expr::Throw(_) => Func::Litr(UNIT),
        Expr::Catch(_) => Func::Litr(UNIT),
    }
}

/// The locals that the registers and the buffer hold between them when
/// `top` bindings are in scope, outermost first: the innermost in `r0`, the
/// one next to it in `r1`, and the one at index `j` below those in slot
/// `j + 2`.
pub open spec fn locals_of(frame: Seq<i64>, top: nat, r0: i64, r1: i64) -> Seq<i64> {
    Seq::new(
        top,
        |j: int|
            if j == top - 1 {
                r0
            } else if j == top - 2 {
                r1
            } else {
                frame[j + 2]
            },
    )
}

/// Entering a `Let` adds the new local and moves no other.
proof fn locals_after_bind(frame: Seq<i64>, top: nat, r0: i64, r1: i64, v: i64)
    requires
        top <= frame.len(),
    ensures
        locals_of(written(frame, top, r1), top + 1, v, r0) == locals_of(frame, top, r0, r1).push(v),
{
    assert(locals_of(written(frame, top, r1), top + 1, v, r0) =~= locals_of(frame, top, r0, r1).push(
        v,
    ));
}

/// Leaving a `Let` drops its local and moves no other.
proof fn locals_after_unbind(frame: Seq<i64>, top: nat, r0: i64, r1: i64)
    requires
        top < frame.len(),
    ensures
        locals_of(
            frame,
            top,
            r1,
            frame[top as int],
        ) == locals_of(frame, top + 1, r0, r1).drop_last(),
{
    assert(locals_of(frame, top, r1, frame[top as int]) =~= locals_of(
        frame,
        top + 1,
        r0,
        r1,
    ).drop_last());
}

/// A store to a register or to the buffer changes the one local it names.
proof fn locals_after_store(frame: Seq<i64>, top: nat, r0: i64, r1: i64, k: nat, v: i64)
    requires
        k < top <= frame.len(),
    ensures
        k == 0 ==> locals_of(frame, top, v, r1) == locals_of(frame, top, r0, r1).update(
            top - 1 - k,
            v,
        ),
        k == 1 ==> locals_of(frame, top, r0, v) == locals_of(frame, top, r0, r1).update(
            top - 1 - k,
            v,
        ),
        k >= 2 ==> locals_of(frame.update(top + 1 - k, v), top, r0, r1) == locals_of(
            frame,
            top,
            r0,
            r1,
        ).update(top - 1 - k, v),
{
    let l = locals_of(frame, top, r0, r1).update(top - 1 - k, v);
    if k == 0 {
        assert(locals_of(frame, top, v, r1) =~= l);
    } else if k == 1 {
        assert(locals_of(frame, top, r0, v) =~= l);
    } else {
        assert(locals_of(frame.update(top + 1 - k, v), top, r0, r1) =~= l);
    }
}

/// The unit of a tree does what the tree does: called with the tree's locals
/// spread over registers and buffer as [`locals_of`] says, it returns the
/// tree's value and leaves there the locals as evaluation leaves them; and
/// it runs out of fuel exactly where evaluation does.
#[verifier::rlimit(50)]
pub proof fn func_runs_as_evaluated(
    e: Expr,
    args: Seq<i64>,
    frame: Seq<i64>,
    top: nat,
    r0: i64,
    r1: i64,
    fuel: nat,
)
    requires
        e.is_base(),
        e.scoped(top),
        e.args_within(args.len()),
        top <= frame.len(),
    ensures
        match eval(e, args, locals_of(frame, top, r0, r1), fuel) {
            Some(Outcome::Value(v, l)) => func_of(e).run(args, frame, top, r0, r1, fuel) matches Some(
                a,
            ) && a.value == v && locals_of(a.frame, top, a.r0, a.r1) == l && a.frame.len()
                >= frame.len(),
            _ => func_of(e).run(args, frame, top, r0, r1, fuel) is None,
        },
    decreases fuel, e,
{
    let locals = locals_of(frame, top, r0, r1);
    crate::semantics::eval_keeps_depth(e, args, locals, fuel);
    func_of(e).run_keeps_slots(args, frame, top, r0, r1, fuel);
    match e {
        Expr::Litr(_) => {},
        Expr::Arg(_) => {},
        Expr::Get(_) => {},
        Expr::Add(x, y) => {
            crate::semantics::base_never_throws(*x, args, locals, fuel);
            func_runs_as_evaluated(*x, args, frame, top, r0, r1, fuel);
            if let Some(a) = func_of(*x).run(args, frame, top, r0, r1, fuel) {
                func_runs_as_evaluated(*y, args, a.frame, top, a.r0, a.r1, fuel);
            }
        },
        Expr::Let(rhs, body) => {
            func_runs_as_evaluated(*rhs, args, frame, top, r0, r1, fuel);
            if let Some(a) = func_of(*rhs).run(args, frame, top, r0, r1, fuel) {
                let f2 = written(a.frame, top, a.r1);
                let inner = locals_of(f2, top + 1, a.value, a.r0);
                locals_after_bind(a.frame, top, a.r0, a.r1, a.value);
                crate::semantics::base_never_throws(*body, args, inner, fuel);
                func_runs_as_evaluated(*body, args, f2, top + 1, a.value, a.r0, fuel);
                if let Some(b) = func_of(*body).run(args, f2, top + 1, a.value, a.r0, fuel) {
                    locals_after_unbind(b.frame, top, b.r0, b.r1);
                }
            }
        },
        Expr::Assign(k, rhs) => {
            func_runs_as_evaluated(*rhs, args, frame, top, r0, r1, fuel);
            if let Some(a) = func_of(*rhs).run(args, frame, top, r0, r1, fuel) {
                locals_after_store(a.frame, top, a.r0, a.r1, k as nat, a.value);
            }
        },
        Expr::While(pred, body) => {
            if fuel > 0 {
                let f = (fuel - 1) as nat;
                func_runs_as_evaluated(*pred, args, frame, top, r0, r1, f);
                if let Some(c) = func_of(*pred).run(args, frame, top, r0, r1, f) {
                    if c.value > 0 {
                        func_runs_as_evaluated(*body, args, c.frame, top, c.r0, c.r1, f);
                        if let Some(b) = func_of(*body).run(args, c.frame, top, c.r0, c.r1, f) {
                            func_runs_as_evaluated(e, args, b.frame, top, b.r0, b.r1, f);
                        }
                    }
                }
            }
        },
        Expr::Then(a, b) => {
            func_runs_as_evaluated(*a, args, frame, top, r0, r1, fuel);
            if let Some(a) = func_of(*a).run(args, frame, top, r0, r1, fuel) {
                func_runs_as_evaluated(*b, args, a.frame, top, a.r0, a.r1, fuel);
            }
        },
        Expr::Throw(_) => {},
        Expr::Catch(_) => {},
    }
}

/// Compiles one node, its children first.
fn compile_inner(expr: &Expr) -> (func: Func)
    requires
        expr.is_base(),
    ensures
        func == func_of(*expr),
    decreases *expr,
{
    match expr {
        Expr::Litr(x) => Func::Litr(*x),
        Expr::Arg(idx) => Func::Arg(*idx),
        Expr::Get(local) => match *local {
            0 => Func::Get0,
            1 => Func::Get1,
            _ => Func::Get(*local),
        },
        Expr::Add(x, y) => match &**y {
            Expr::Litr(1) => Func::AddOne(Box::new(compile_inner(x))),
            Expr::Litr(y) => Func::AddLitr(Box::new(compile_inner(x)), *y),
            Expr::Arg(1) => Func::AddArg1(Box::new(compile_inner(x))),
            _ => {
                let x = compile_inner(x);
                let y = compile_inner(y);
                Func::Add(Box::new(x), Box::new(y))
            },
        },
        Expr::Let(rhs, then) => {
            let rhs = compile_inner(rhs);
            let then = compile_inner(then);
            Func::Let(Box::new(rhs), Box::new(then))
        },
        Expr::Assign(local, rhs) => {
            let rhs = compile_inner(rhs);
            match *local {
                0 => Func::Store0(Box::new(rhs)),
                1 => Func::Store1(Box::new(rhs)),
                _ => Func::Store(*local, Box::new(rhs)),
            }
        },
        Expr::While(pred, body) => {
            let pred = compile_inner(pred);
            let body = compile_inner(body);
            Func::While(Box::new(pred), Box::new(body))
        },
        Expr::Then(a, b) => {
            let a = compile_inner(a);
            let b = compile_inner(b);
            Func::Then(Box::new(a), Box::new(b))
        },
        Expr::Throw(_) => Func::Litr(UNIT),
        Expr::Catch(_) => Func::Litr(UNIT),
    }
}

impl Vm for RegisterClosures {
    type Program<'a> = Func;

    /// Trees of the base language.
    open spec fn supports(expr: Expr) -> bool {
        expr.is_base()
    }

    /// The program is the unit that [`func_of`] gives for the tree.
    open spec fn compiled(expr: Expr, prog: &Func) -> bool {
        *prog == func_of(expr)
    }

    fn compile<'a>(expr: &'a Expr) -> (prog: Func) {
        compile_inner(expr)
    }

    fn execute(prog: &Func, args: &[i64]) -> (res: i64) {
        let mut v: Vec<i64> = vec![0; 64];
        let mut r: [i64; 2] = [0; REG_COUNT];
        let ghost fuel: nat;
        proof {
            let e = choose|expr: Expr|
                Self::compiled(expr, prog) && Self::supports(expr) && evaluates(expr, args@);
            fuel = crate::semantics::fuel_for_value(e, args@);
            assert(locals_of(v@, 0, r@[0], r@[1]) =~= Seq::empty());
            func_runs_as_evaluated(e, args@, v@, 0, r@[0], r@[1], fuel);
            assert forall|expr: Expr|
                Self::compiled(expr, prog) && Self::supports(expr) && evaluates(expr, args@)
                implies yields(expr, args@, prog.run(args@, v@, 0, r@[0], r@[1], fuel).unwrap().value) by {
                func_runs_as_evaluated(expr, args@, v@, 0, r@[0], r@[1], fuel);
                let o = eval(expr, args@, Seq::empty(), fuel).unwrap();
                assert(o.exit() == crate::Exit::Value(
                    prog.run(args@, v@, 0, r@[0], r@[1], fuel).unwrap().value,
                ));
            }
        }
        prog.invoke(args, &mut v, 0, &mut r, Ghost(fuel))
    }
}

} // verus!
