//! Closures: every node of the tree becomes one unit of code that holds the
//! units of its children. Running the program is calling the outermost unit;
//! there is no loop that interprets anything.
//!
//! The locals live in one buffer that every call shares. A call is handed the
//! index `top` of the first free slot: the locals in scope are the `top`
//! slots below it, and a `Let` writes the new local at `top` and calls its
//! body with `top + 1`. Nothing is ever popped.

use vstd::prelude::*;
use crate::frame::{store, written};
use crate::semantics::{eval, evaluates, yields, Outcome};
use crate::{Expr, Vm, UNIT};

verus! {

/// The engine that compiles to a tree of [`Func`]s.
pub struct Closures;

/// One unit of compiled code: the variant says which code it is, the fields
/// are what it captured when it was made.
#[derive(Debug, PartialEq, Eq)]
pub enum Func {
    /// The captured constant.
    Litr(i64),
    /// The first argument.
    Arg0,
    /// The second argument.
    Arg1,
    /// The argument at the captured index.
    Arg(usize),
    /// The innermost local.
    Get0,
    /// The local next to the innermost.
    Get1,
    /// The local at the captured lexical offset.
    Get(usize),
    /// The operand plus one.
    AddOne(Box<Func>),
    /// The operand minus one.
    SubOne(Box<Func>),
    /// The operand plus the captured constant.
    AddLitr(Box<Func>, i64),
    /// The operand plus the second argument.
    AddArg1(Box<Func>),
    /// The sum of both operands.
    Add(Box<Func>, Box<Func>),
    /// Binds the first unit's value for the second.
    Let(Box<Func>, Box<Func>),
    /// Stores the operand in the innermost local.
    Store0(Box<Func>),
    /// Stores the operand in the local next to the innermost.
    Store1(Box<Func>),
    /// Stores the operand in the local at the captured lexical offset.
    Store(usize, Box<Func>),
    /// Calls the second unit for as long as the first is positive.
    While(Box<Func>, Box<Func>),
    /// Calls the first unit, then the second.
    Then(Box<Func>, Box<Func>),
}

impl Func {
    /// What a call of the unit returns and what it leaves in the buffer,
    /// when `frame` is the buffer and `top` its first free slot; `None` where
    /// a loop nest iterates more than `fuel` deep, or where the unit reaches
    /// for a local, a slot or an argument that is not there.
    pub open spec fn run(self, args: Seq<i64>, frame: Seq<i64>, top: nat, fuel: nat) -> Option<
        (i64, Seq<i64>),
    >
        decreases fuel, self,
    {
        if top > frame.len() {
            None
        } else {
            match self {
                Func::Litr(x) => Some((x, frame)),
                Func::Arg0 => if 0 < args.len() {
                    Some((args[0], frame))
                } else {
                    None
                },
                Func::Arg1 => if 1 < args.len() {
                    Some((args[1], frame))
                } else {
                    None
                },
                Func::Arg(i) => if i < args.len() {
                    Some((args[i as int], frame))
                } else {
                    None
                },
                Func::Get0 => if 0 < top {
                    Some((frame[top - 1], frame))
                } else {
                    None
                },
                Func::Get1 => if 1 < top {
                    Some((frame[top - 2], frame))
                } else {
                    None
                },
                Func::Get(k) => if k < top {
                    Some((frame[top - 1 - k], frame))
                } else {
                    None
                },
                Func::AddOne(x) => match (*x).run(args, frame, top, fuel) {
                    Some((a, f1)) => Some((a.wrapping_add(1), f1)),
                    None => None,
                },
                Func::SubOne(x) => match (*x).run(args, frame, top, fuel) {
                    Some((a, f1)) => Some((a.wrapping_sub(1), f1)),
                    None => None,
                },
                Func::AddLitr(x, y) => match (*x).run(args, frame, top, fuel) {
                    Some((a, f1)) => Some((a.wrapping_add(y), f1)),
                    None => None,
                },
                Func::AddArg1(x) => match (*x).run(args, frame, top, fuel) {
                    Some((a, f1)) => if 1 < args.len() {
                        Some((a.wrapping_add(args[1]), f1))
                    } else {
                        None
                    },
                    None => None,
                },
                Func::Add(x, y) => match (*x).run(args, frame, top, fuel) {
                    Some((a, f1)) => match (*y).run(args, f1, top, fuel) {
                        Some((b, f2)) => Some((a.wrapping_add(b), f2)),
                        None => None,
                    },
                    None => None,
                },
                Func::Let(rhs, then) => match (*rhs).run(args, frame, top, fuel) {
                    Some((v, f1)) => (*then).run(args, written(f1, top, v), top + 1, fuel),
                    None => None,
                },
                Func::Store0(rhs) => match (*rhs).run(args, frame, top, fuel) {
                    Some((v, f1)) => if 0 < top <= f1.len() {
                        Some((UNIT, f1.update(top - 1, v)))
                    } else {
                        None
                    },
                    None => None,
                },
                Func::Store1(rhs) => match (*rhs).run(args, frame, top, fuel) {
                    Some((v, f1)) => if 1 < top <= f1.len() {
                        Some((UNIT, f1.update(top - 2, v)))
                    } else {
                        None
                    },
                    None => None,
                },
                Func::Store(k, rhs) => match (*rhs).run(args, frame, top, fuel) {
                    Some((v, f1)) => if k < top <= f1.len() {
                        Some((UNIT, f1.update(top - 1 - k, v)))
                    } else {
                        None
                    },
                    None => None,
                },
                Func::While(pred, body) => if fuel == 0 {
                    None
                } else {
                    match (*pred).run(args, frame, top, (fuel - 1) as nat) {
                        Some((c, f1)) => if c > 0 {
                            match (*body).run(args, f1, top, (fuel - 1) as nat) {
                                Some((_, f2)) => self.run(args, f2, top, (fuel - 1) as nat),
                                None => None,
                            }
                        } else {
                            Some((UNIT, f1))
                        },
                        None => None,
                    }
                },
                Func::Then(a, b) => match (*a).run(args, frame, top, fuel) {
                    Some((_, f1)) => (*b).run(args, f1, top, fuel),
                    None => None,
                },
            }
        }
    }

    /// A call never shrinks the buffer.
    pub proof fn run_keeps_slots(self, args: Seq<i64>, frame: Seq<i64>, top: nat, fuel: nat)
        ensures
            self.run(args, frame, top, fuel) matches Some((_, f)) ==> f.len() >= frame.len(),
        decreases fuel, self,
    {
        match self {
            Func::Litr(_) => {},
            Func::Arg0 => {},
            Func::Arg1 => {},
            Func::Arg(_) => {},
            Func::Get0 => {},
            Func::Get1 => {},
            Func::Get(_) => {},
            Func::AddOne(x) => (*x).run_keeps_slots(args, frame, top, fuel),
            Func::SubOne(x) => (*x).run_keeps_slots(args, frame, top, fuel),
            Func::AddLitr(x, _) => (*x).run_keeps_slots(args, frame, top, fuel),
            Func::AddArg1(x) => (*x).run_keeps_slots(args, frame, top, fuel),
            Func::Add(x, y) => {
                (*x).run_keeps_slots(args, frame, top, fuel);
                if let Some((_, f1)) = (*x).run(args, frame, top, fuel) {
                    (*y).run_keeps_slots(args, f1, top, fuel);
                }
            },
            Func::Let(rhs, then) => {
                (*rhs).run_keeps_slots(args, frame, top, fuel);
                if let Some((v, f1)) = (*rhs).run(args, frame, top, fuel) {
                    (*then).run_keeps_slots(args, written(f1, top, v), top + 1, fuel);
                }
            },
            Func::Store0(rhs) => (*rhs).run_keeps_slots(args, frame, top, fuel),
            Func::Store1(rhs) => (*rhs).run_keeps_slots(args, frame, top, fuel),
            Func::Store(_, rhs) => (*rhs).run_keeps_slots(args, frame, top, fuel),
            Func::While(pred, body) => {
                if fuel > 0 {
                    let f = (fuel - 1) as nat;
                    (*pred).run_keeps_slots(args, frame, top, f);
                    if let Some((c, f1)) = (*pred).run(args, frame, top, f) {
                        if c > 0 {
                            (*body).run_keeps_slots(args, f1, top, f);
                            if let Some((_, f2)) = (*body).run(args, f1, top, f) {
                                self.run_keeps_slots(args, f2, top, f);
                            }
                        }
                    }
                }
            },
            Func::Then(a, b) => {
                (*a).run_keeps_slots(args, frame, top, fuel);
                if let Some((_, f1)) = (*a).run(args, frame, top, fuel) {
                    (*b).run_keeps_slots(args, f1, top, fuel);
                }
            },
        }
    }

    /// Calls the unit with `locals` as the buffer and `top` as its first free
    /// slot.
    pub fn invoke(
        &self,
        args: &[i64],
        locals: &mut Vec<i64>,
        top: usize,
        Ghost(fuel): Ghost<nat>,
    ) -> (res: i64)
        requires
            self.run(args@, old(locals)@, top as nat, fuel) is Some,
        ensures
            self.run(args@, old(locals)@, top as nat, fuel) == Some((res, final(locals)@)),
            final(locals)@.len() >= old(locals)@.len(),
        decreases fuel, *self,
    {
        proof {
            self.run_keeps_slots(args@, locals@, top as nat, fuel);
        }
        match self {
            Func::Litr(x) => *x,
            Func::Arg0 => args[0],
            Func::Arg1 => args[1],
            Func::Arg(idx) => args[*idx],
            Func::Get0 => locals[top - 1],
            Func::Get1 => locals[top - 2],
            Func::Get(local) => locals[top - 1 - *local],
            Func::AddOne(x) => x.invoke(args, locals, top, Ghost(fuel)).wrapping_add(1),
            Func::SubOne(x) => x.invoke(args, locals, top, Ghost(fuel)).wrapping_sub(1),
            Func::AddLitr(x, y) => x.invoke(args, locals, top, Ghost(fuel)).wrapping_add(*y),
            Func::AddArg1(x) => x.invoke(args, locals, top, Ghost(fuel)).wrapping_add(args[1]),
            Func::Add(x, y) => {
                let a = x.invoke(args, locals, top, Ghost(fuel));
                let b = y.invoke(args, locals, top, Ghost(fuel));
                a.wrapping_add(b)
            },
            Func::Let(rhs, then) => {
                let rhs = rhs.invoke(args, locals, top, Ghost(fuel));
                store(locals, top, rhs);
                then.invoke(args, locals, top + 1, Ghost(fuel))
            },
            Func::Store0(rhs) => {
                let rhs = rhs.invoke(args, locals, top, Ghost(fuel));
                locals.set(top - 1, rhs);
                UNIT
            },
            Func::Store1(rhs) => {
                let rhs = rhs.invoke(args, locals, top, Ghost(fuel));
                locals.set(top - 2, rhs);
                UNIT
            },
            Func::Store(local, rhs) => {
                let rhs = rhs.invoke(args, locals, top, Ghost(fuel));
                locals.set(top - 1 - *local, rhs);
                UNIT
            },
            Func::While(pred, body) => {
                let ghost mut left = fuel;
                loop
                    invariant_except_break
                        self.run(args@, locals@, top as nat, left) is Some,
                        self.run(args@, locals@, top as nat, left) == self.run(
                            args@,
                            old(locals)@,
                            top as nat,
                            fuel,
                        ),
                    invariant
                        *self == Func::While(*pred, *body),
                        locals@.len() >= old(locals)@.len(),
                        left <= fuel,
                    ensures
                        self.run(args@, old(locals)@, top as nat, fuel) == Some((UNIT, locals@)),
                    decreases left,
                {
                    let c = pred.invoke(args, locals, top, Ghost((left - 1) as nat));
                    if c > 0 {
                        body.invoke(args, locals, top, Ghost((left - 1) as nat));
                        proof {
                            left = (left - 1) as nat;
                        }
                    } else {
                        break;
                    }
                }
                UNIT
            },
            Func::Then(a, b) => {
                a.invoke(args, locals, top, Ghost(fuel));
                b.invoke(args, locals, top, Ghost(fuel))
            },
        }
    }
}

/// The unit that `e` compiles to. The sums whose right operand is the
/// constant 1, the constant -1, another constant or the second argument
/// become one unit each in place of two operands and an addition, and so do
/// the first two arguments and the two innermost locals.
pub open spec fn func_of(e: Expr) -> Func
    decreases e,
{
    match e {
        Expr::Litr(x) => Func::Litr(x),
        Expr::Arg(i) => if i == 0 {
            Func::Arg0
        } else if i == 1 {
            Func::Arg1
        } else {
            Func::Arg(i)
        },
        Expr::Get(k) => if k == 0 {
            Func::Get0
        } else if k == 1 {
            Func::Get1
        } else {
            Func::Get(k)
        },
        Expr::Add(x, y) => match *y {
            Expr::Litr(c) => if c == 1 {
                Func::AddOne(Box::new(func_of(*x)))
            } else if c == -1 {
                Func::SubOne(Box::new(func_of(*x)))
            } else {
                Func::AddLitr(Box::new(func_of(*x)), c)
            },
            Expr::Arg(i) => if i == 1 {
                Func::AddArg1(Box::new(func_of(*x)))
            } else {
                Func::Add(Box::new(func_of(*x)), Box::new(func_of(*y)))
            },
            _ => Func::Add(Box::new(func_of(*x)), Box::new(func_of(*y))),
        },
        Expr::Let(rhs, body) => Func::Let(Box::new(func_of(*rhs)), Box::new(func_of(*body))),
        Expr::Assign(k, rhs) => if k == 0 {
            Func::Store0(Box::new(func_of(*rhs)))
        } else if k == 1 {
            Func::Store1(Box::new(func_of(*rhs)))
        } else {
            Func::Store(k, Box::new(func_of(*rhs)))
        },
        Expr::While(pred, body) => Func::While(Box::new(func_of(*pred)), Box::new(func_of(*body))),
        Expr::Then(a, b) => Func::Then(Box::new(func_of(*a)), Box::new(func_of(*b))),
        Expr::Throw(_) => Func::Litr(UNIT),
        Expr::Catch(_) => Func::Litr(UNIT),
    }
}

/// The unit of a tree does what the tree does: called with the tree's locals
/// in the `top` slots below the first free one, it returns the tree's value
/// and leaves in those slots the locals as evaluation leaves them; and it
/// runs out of fuel exactly where evaluation does.
#[verifier::rlimit(50)]
pub proof fn func_runs_as_evaluated(e: Expr, args: Seq<i64>, frame: Seq<i64>, top: nat, fuel: nat)
    requires
        e.is_base(),
        e.scoped(top),
        e.args_within(args.len()),
        top <= frame.len(),
    ensures
        match eval(e, args, frame.take(top as int), fuel) {
            Some(Outcome::Value(v, l)) => func_of(e).run(args, frame, top, fuel) matches Some(
                (r, f),
            ) && r == v && f.take(top as int) == l && f.len() >= frame.len(),
            _ => func_of(e).run(args, frame, top, fuel) is None,
        },
    decreases fuel, e,
{
    let locals = frame.take(top as int);
    func_of(e).run_keeps_slots(args, frame, top, fuel);
    match e {
        Expr::Litr(_) => {},
        Expr::Arg(_) => {},
        Expr::Get(_) => {},
        Expr::Add(x, y) => {
            func_runs_as_evaluated(*x, args, frame, top, fuel);
            if let Some((_, f1)) = func_of(*x).run(args, frame, top, fuel) {
                func_runs_as_evaluated(*y, args, f1, top, fuel);
            }
        },
        Expr::Let(rhs, body) => {
            crate::semantics::base_never_throws(*rhs, args, locals, fuel);
            func_runs_as_evaluated(*rhs, args, frame, top, fuel);
            if let Some((v, f1)) = func_of(*rhs).run(args, frame, top, fuel) {
                let f2 = written(f1, top, v);
                assert(f2.take((top + 1) as int) =~= f1.take(top as int).push(v));
                func_runs_as_evaluated(*body, args, f2, top + 1, fuel);
                if let Some((_, f3)) = func_of(*body).run(args, f2, top + 1, fuel) {
                    assert(f3.take(top as int) =~= f3.take((top + 1) as int).drop_last());
                }
            }
        },
        Expr::Assign(k, rhs) => {
            func_runs_as_evaluated(*rhs, args, frame, top, fuel);
            if let Some((v, f1)) = func_of(*rhs).run(args, frame, top, fuel) {
                assert(f1.update(top - 1 - k, v).take(top as int) =~= f1.take(top as int).update(
                    top - 1 - k,
                    v,
                ));
            }
        },
        Expr::While(pred, body) => {
            if fuel > 0 {
                let f = (fuel - 1) as nat;
                crate::semantics::base_never_throws(*pred, args, locals, f);
                func_runs_as_evaluated(*pred, args, frame, top, f);
                if let Some((c, f1)) = func_of(*pred).run(args, frame, top, f) {
                    if c > 0 {
                        func_runs_as_evaluated(*body, args, f1, top, f);
                        if let Some((_, f2)) = func_of(*body).run(args, f1, top, f) {
                            func_runs_as_evaluated(e, args, f2, top, f);
                        }
                    }
                }
            }
        },
        Expr::Then(a, b) => {
            func_runs_as_evaluated(*a, args, frame, top, fuel);
            if let Some((_, f1)) = func_of(*a).run(args, frame, top, fuel) {
                func_runs_as_evaluated(*b, args, f1, top, fuel);
            }
        },
        Expr::Throw(_) => {},
        Expr::Catch(_) => {},
    }
}

/// Compiles one node, its children first.
fn compile_inner(expr: &Expr) -> (func: Func)
    requires
        expr.is_base(),
    ensures
        func == func_of(*expr),
    decreases *expr,
{
    match expr {
        Expr::Litr(x) => Func::Litr(*x),
        Expr::Arg(idx) => match *idx {
            0 => Func::Arg0,
            1 => Func::Arg1,
            _ => Func::Arg(*idx),
        },
        Expr::Get(local) => match *local {
            0 => Func::Get0,
            1 => Func::Get1,
            _ => Func::Get(*local),
        },
        Expr::Add(x, y) => match &**y {
            Expr::Litr(1) => Func::AddOne(Box::new(compile_inner(x))),
            Expr::Litr(-1) => Func::SubOne(Box::new(compile_inner(x))),
            Expr::Litr(y) => Func::AddLitr(Box::new(compile_inner(x)), *y),
            Expr::Arg(1) => Func::AddArg1(Box::new(compile_inner(x))),
            _ => {
                let x = compile_inner(x);
                let y = compile_inner(y);
                Func::Add(Box::new(x), Box::new(y))
            },
        },
        Expr::Let(rhs, then) => {
            let rhs = compile_inner(rhs);
            let then = compile_inner(then);
            Func::Let(Box::new(rhs), Box::new(then))
        },
        Expr::Assign(local, rhs) => match *local {
            0 => Func::Store0(Box::new(compile_inner(rhs))),
            1 => Func::Store1(Box::new(compile_inner(rhs))),
            _ => Func::Store(*local, Box::new(compile_inner(rhs))),
        },
        Expr::While(pred, body) => {
            let pred = compile_inner(pred);
            let body = compile_inner(body);
            Func::While(Box::new(pred), Box::new(body))
        },
        Expr::Then(a, b) => {
            let a = compile_inner(a);
            let b = compile_inner(b);
            Func::Then(Box::new(a), Box::new(b))
        },
        Expr::Throw(_) => Func::Litr(UNIT),
        Expr::Catch(_) => Func::Litr(UNIT),
    }
}

impl Vm for Closures {
    type Program<'a> = Func;

    /// Trees of the base language.
    open spec fn supports(expr: Expr) -> bool {
        expr.is_base()
    }

    /// The program is the unit that [`func_of`] gives for the tree.
    open spec fn compiled(expr: Expr, prog: &Func) -> bool {
        *prog == func_of(expr)
    }

    fn compile<'a>(expr: &'a Expr) -> (prog: Func) {
        compile_inner(expr)
    }

    fn execute(prog: &Func, args: &[i64]) -> (res: i64) {
        let mut v: Vec<i64> = vec![0; 64];
        let ghost fuel: nat;
        proof {
            let e = choose|expr: Expr|
                Self::compiled(expr, prog) && Self::supports(expr) && evaluates(expr, args@);
            fuel = crate::semantics::fuel_for_value(e, args@);
            assert(v@.take(0) =~= Seq::empty());
            func_runs_as_evaluated(e, args@, v@, 0, fuel);
            assert forall|expr: Expr|
                Self::compiled(expr, prog) && Self::supports(expr) && evaluates(expr, args@)
                implies yields(expr, args@, prog.run(args@, v@, 0, fuel).unwrap().0) by {
                func_runs_as_evaluated(expr, args@, v@, 0, fuel);
                let o = eval(expr, args@, Seq::empty(), fuel).unwrap();
                assert(o.exit() == crate::Exit::Value(prog.run(args@, v@, 0, fuel).unwrap().0));
            }
        }
        prog.invoke(args, &mut v, 0, Ghost(fuel))
    }
}

} // verus!
