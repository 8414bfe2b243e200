//! Closure stack continuations: continuation-passing units, as in the
//! closure continuations engine, that hand one another a stack of values in
//! place of a single current value. A unit takes its operands from the top of
//! that stack and leaves its result there.
//!
//! A tree that leaves no value behind pushes nothing. Where the first part of
//! a sequence or the body of a loop does leave a value, the unit that comes
//! after it drops that value before it goes on; where the value of a tree
//! that leaves none is used, a unit that pushes unit comes after it.

use vstd::prelude::*;
use crate::frame::{store, written};
use crate::semantics::{eval, evaluates, yields, Outcome};
use crate::{Expr, Vm, UNIT};

pub use crate::stack::Stack;

verus! {

/// The engine that compiles to [`Func`]s that pass a [`Stack`].
pub struct ClosureStackContinuations;

/// What a unit does when it is done: hand the stack back, or call the next
/// unit with it.
#[derive(Debug, PartialEq, Eq)]
pub enum MaybeCont {
    /// Nothing follows: the stack is the result of the call.
    Done,
    /// This unit follows.
    Next(Box<Func>),
}

/// One unit of compiled code: the variant says which code it is, the fields
/// are what it captured when it was made.
#[derive(Debug, PartialEq, Eq)]
pub enum Func {
    /// Pushes the captured constant.
    Litr(i64, MaybeCont),
    /// Pushes the first argument.
    Arg0(MaybeCont),
    /// Pushes the second argument.
    Arg1(MaybeCont),
    /// Pushes the argument at the captured index.
    Arg(usize, MaybeCont),
    /// Pushes the innermost local.
    Get0(MaybeCont),
    /// Pushes the local next to the innermost.
    Get1(MaybeCont),
    /// Pushes the local at the captured lexical offset.
    Get(usize, MaybeCont),
    /// Adds one to the top value.
    AddOne(MaybeCont),
    /// Subtracts one from the top value.
    SubOne(MaybeCont),
    /// Adds the captured constant to the top value.
    AddLitr(i64, MaybeCont),
    /// Adds the second argument to the top value.
    AddArg1(MaybeCont),
    /// Replaces the two top values by their sum.
    AddTop(MaybeCont),
    /// Pops the top value into a new innermost local and calls the captured
    /// body.
    Bind(Box<Func>),
    /// Drops the innermost local and goes on.
    Unbind(Box<Func>),
    /// Pops the top value into the innermost local.
    Store0(MaybeCont),
    /// Pops the top value into the local next to the innermost.
    Store1(MaybeCont),
    /// Pops the top value into the local at the captured lexical offset.
    Store(usize, MaybeCont),
    /// Calls the captured test and pops its value; while that is positive,
    /// calls the captured body, drops what it left where the captured flag
    /// says that it leaves a value, and tests again.
    While(Box<Func>, Box<Func>, bool, MaybeCont),
    /// Drops the top value where the captured flag says that the first part
    /// left one, and calls the captured second part.
    Then(bool, Box<Func>),
}

impl MaybeCont {
    /// What the continuation makes of `stack`: see [`Func::run`].
    pub open spec fn run(
        self,
        args: Seq<i64>,
        frame: Seq<i64>,
        top: nat,
        stack: Seq<i64>,
        fuel: nat,
    ) -> Option<(Seq<i64>, Seq<i64>)>
        decreases fuel, self,
    {
        match self {
            MaybeCont::Done => Some((stack, frame)),
            MaybeCont::Next(f) => (*f).run(args, frame, top, stack, fuel),
        }
    }

    /// The continuation that first drops the innermost local. Where nothing
    /// follows, nothing needs to be dropped.
    pub open spec fn unbound(self) -> MaybeCont {
        match self {
            MaybeCont::Done => MaybeCont::Done,
            MaybeCont::Next(f) => MaybeCont::Next(Box::new(Func::Unbind(f))),
        }
    }
}

/// `stack` with its top value replaced by `v`.
pub open spec fn retop(stack: Seq<i64>, v: i64) -> Seq<i64> {
    stack.drop_last().push(v)
}

impl Func {
    /// The stack that a call of the unit hands back, and what it leaves in
    /// the buffer, when it is called with `stack`, with `frame` as the buffer
    /// and `top` as its first free slot; `None` where a loop nest iterates
    /// more than `fuel` deep, or where a unit reaches for a value, a local, a
    /// slot or an argument that is not there.
    pub open spec fn run(
        self,
        args: Seq<i64>,
        frame: Seq<i64>,
        top: nat,
        stack: Seq<i64>,
        fuel: nat,
    ) -> Option<(Seq<i64>, Seq<i64>)>
        decreases fuel, self,
    {
        if top > frame.len() {
            None
        } else {
            match self {
                Func::Litr(x, k) => k.run(args, frame, top, stack.push(x), fuel),
                Func::Arg0(k) => if 0 < args.len() {
                    k.run(args, frame, top, stack.push(args[0]), fuel)
                } else {
                    None
                },
                Func::Arg1(k) => if 1 < args.len() {
                    k.run(args, frame, top, stack.push(args[1]), fuel)
                } else {
                    None
                },
                Func::Arg(i, k) => if i < args.len() {
                    k.run(args, frame, top, stack.push(args[i as int]), fuel)
                } else {
                    None
                },
                Func::Get0(k) => if 0 < top {
                    k.run(args, frame, top, stack.push(frame[top - 1]), fuel)
                } else {
                    None
                },
                Func::Get1(k) => if 1 < top {
                    k.run(args, frame, top, stack.push(frame[top - 2]), fuel)
                } else {
                    None
                },
                Func::Get(l, k) => if l < top {
                    k.run(args, frame, top, stack.push(frame[top - 1 - l]), fuel)
                } else {
                    None
                },
                Func::AddOne(k) => if stack.len() >= 1 {
                    k.run(args, frame, top, retop(stack, stack.last().wrapping_add(1)), fuel)
                } else {
                    None
                },
                Func::SubOne(k) => if stack.len() >= 1 {
                    k.run(args, frame, top, retop(stack, stack.last().wrapping_sub(1)), fuel)
                } else {
                    None
                },
                Func::AddLitr(y, k) => if stack.len() >= 1 {
                    k.run(args, frame, top, retop(stack, stack.last().wrapping_add(y)), fuel)
                } else {
                    None
                },
                Func::AddArg1(k) => if stack.len() >= 1 && 1 < args.len() {
                    k.run(args, frame, top, retop(stack, stack.last().wrapping_add(args[1])), fuel)
                } else {
                    None
                },
                Func::AddTop(k) => if stack.len() >= 2 {
                    let y = stack[stack.len() - 1];
                    let x = stack[stack.len() - 2];
                    k.run(args, frame, top, retop(stack.drop_last(), x.wrapping_add(y)), fuel)
                } else {
                    None
                },
                Func::Bind(then) => if stack.len() >= 1 {
                    (*then).run(
                        args,
                        written(frame, top, stack.last()),
                        top + 1,
                        stack.drop_last(),
                        fuel,
                    )
                } else {
                    None
                },
                Func::Unbind(k) => if 0 < top {
                    (*k).run(args, frame, (top - 1) as nat, stack, fuel)
                } else {
                    None
                },
                Func::Store0(k) => if stack.len() >= 1 && 0 < top {
                    k.run(args, frame.update(top - 1, stack.last()), top, stack.drop_last(), fuel)
                } else {
                    None
                },
                Func::Store1(k) => if stack.len() >= 1 && 1 < top {
                    k.run(args, frame.update(top - 2, stack.last()), top, stack.drop_last(), fuel)
                } else {
                    None
                },
                Func::Store(l, k) => if stack.len() >= 1 && l < top {
                    k.run(
                        args,
                        frame.update(top - 1 - l, stack.last()),
                        top,
                        stack.drop_last(),
                        fuel,
                    )
                } else {
                    None
                },
                Func::While(pred, body, body_returns, k) => if fuel == 0 {
                    None
                } else {
                    match (*pred).run(args, frame, top, stack, (fuel - 1) as nat) {
                        Some((s1, f1)) => if s1.len() == 0 {
                            None
                        } else if s1.last() <= 0 {
                            k.run(args, f1, top, s1.drop_last(), fuel)
                        } else {
                            match (*body).run(args, f1, top, s1.drop_last(), (fuel - 1) as nat) {
                                Some((s2, f2)) => if !body_returns {
                                    self.run(args, f2, top, s2, (fuel - 1) as nat)
                                } else if s2.len() >= 1 {
                                    self.run(args, f2, top, s2.drop_last(), (fuel - 1) as nat)
                                } else {
                                    None
                                },
                                None => None,
                            }
                        },
                        None => None,
                    }
                },
                Func::Then(a_returns, b) => if !a_returns {
                    (*b).run(args, frame, top, stack, fuel)
                } else if stack.len() >= 1 {
                    (*b).run(args, frame, top, stack.drop_last(), fuel)
                } else {
                    None
                },
            }
        }
    }
}

impl MaybeCont {
    /// More fuel never changes what less fuel already reached.
    pub proof fn run_monotonic(
        self,
        args: Seq<i64>,
        frame: Seq<i64>,
        top: nat,
        stack: Seq<i64>,
        fuel: nat,
        more: nat,
    )
        requires
            self.run(args, frame, top, stack, fuel) is Some,
            fuel <= more,
        ensures
            self.run(args, frame, top, stack, more) == self.run(args, frame, top, stack, fuel),
        decreases fuel, self,
    {
        match self {
            MaybeCont::Done => {},
            MaybeCont::Next(f) => (*f).run_monotonic(args, frame, top, stack, fuel, more),
        }
    }
}

impl Func {
    /// More fuel never changes what less fuel already reached.
    pub proof fn run_monotonic(
        self,
        args: Seq<i64>,
        frame: Seq<i64>,
        top: nat,
        stack: Seq<i64>,
        fuel: nat,
        more: nat,
    )
        requires
            self.run(args, frame, top, stack, fuel) is Some,
            fuel <= more,
        ensures
            self.run(args, frame, top, stack, more) == self.run(args, frame, top, stack, fuel),
        decreases fuel, self,
    {
        match self {
            Func::Litr(x, k) => k.run_monotonic(args, frame, top, stack.push(x), fuel, more),
            Func::Arg0(k) => k.run_monotonic(args, frame, top, stack.push(args[0]), fuel, more),
            Func::Arg1(k) => k.run_monotonic(args, frame, top, stack.push(args[1]), fuel, more),
            Func::Arg(i, k) => k.run_monotonic(
                args,
                frame,
                top,
                stack.push(args[i as int]),
                fuel,
                more,
            ),
            Func::Get0(k) => k.run_monotonic(
                args,
                frame,
                top,
                stack.push(frame[top - 1]),
                fuel,
                more,
            ),
            Func::Get1(k) => k.run_monotonic(
                args,
                frame,
                top,
                stack.push(frame[top - 2]),
                fuel,
                more,
            ),
            Func::Get(l, k) => k.run_monotonic(
                args,
                frame,
                top,
                stack.push(frame[top - 1 - l]),
                fuel,
                more,
            ),
            Func::AddOne(k) => k.run_monotonic(
                args,
                frame,
                top,
                retop(stack, stack.last().wrapping_add(1)),
                fuel,
                more,
            ),
            Func::SubOne(k) => k.run_monotonic(
                args,
                frame,
                top,
                retop(stack, stack.last().wrapping_sub(1)),
                fuel,
                more,
            ),
            Func::AddLitr(y, k) => k.run_monotonic(
                args,
                frame,
                top,
                retop(stack, stack.last().wrapping_add(y)),
                fuel,
                more,
            ),
            Func::AddArg1(k) => k.run_monotonic(
                args,
                frame,
                top,
                retop(stack, stack.last().wrapping_add(args[1])),
                fuel,
                more,
            ),
            Func::AddTop(k) => {
                let y = stack[stack.len() - 1];
                let x = stack[stack.len() - 2];
                k.run_monotonic(
                    args,
                    frame,
                    top,
                    retop(stack.drop_last(), x.wrapping_add(y)),
                    fuel,
                    more,
                );
            },
            Func::Bind(then) => (*then).run_monotonic(
                args,
                written(frame, top, stack.last()),
                top + 1,
                stack.drop_last(),
                fuel,
                more,
            ),
            Func::Unbind(k) => (*k).run_monotonic(args, frame, (top - 1) as nat, stack, fuel, more),
            Func::Store0(k) => k.run_monotonic(
                args,
                frame.update(top - 1, stack.last()),
                top,
                stack.drop_last(),
                fuel,
                more,
            ),
            Func::Store1(k) => k.run_monotonic(
                args,
                frame.update(top - 2, stack.last()),
                top,
                stack.drop_last(),
                fuel,
                more,
            ),
            Func::Store(l, k) => k.run_monotonic(
                args,
                frame.update(top - 1 - l, stack.last()),
                top,
                stack.drop_last(),
                fuel,
                more,
            ),
            Func::While(pred, body, body_returns, k) => {
                let f = (fuel - 1) as nat;
                let m = (more - 1) as nat;
                (*pred).run_monotonic(args, frame, top, stack, f, m);
                if let Some((s1, f1)) = (*pred).run(args, frame, top, stack, f) {
                    if s1.last() <= 0 {
                        k.run_monotonic(args, f1, top, s1.drop_last(), fuel, more);
                    } else {
                        (*body).run_monotonic(args, f1, top, s1.drop_last(), f, m);
                        if let Some((s2, f2)) = (*body).run(args, f1, top, s1.drop_last(), f) {
                            if !body_returns {
                                self.run_monotonic(args, f2, top, s2, f, m);
                            } else {
                                self.run_monotonic(args, f2, top, s2.drop_last(), f, m);
                            }
                        }
                    }
                }
            },
            Func::Then(a_returns, b) => {
                if !a_returns {
                    (*b).run_monotonic(args, frame, top, stack, fuel, more);
                } else {
                    (*b).run_monotonic(args, frame, top, stack.drop_last(), fuel, more);
                }
            },
        }
    }
}

/// The unit that `e` compiles to when `k` is what happens after it. Both
/// operands of a sum are compiled in line, the right one as the continuation
/// of the left; the test and the body of a loop are compiled with nothing
/// after them and called from the loop's own unit.
pub open spec fn cps_of(e: Expr, k: MaybeCont) -> Func
    decreases e, 1nat,
{
    match e {
        Expr::Litr(x) => Func::Litr(x, k),
        Expr::Arg(i) => if i == 0 {
            Func::Arg0(k)
        } else if i == 1 {
            Func::Arg1(k)
        } else {
            Func::Arg(i, k)
        },
        Expr::Get(l) => if l == 0 {
            Func::Get0(k)
        } else if l == 1 {
            Func::Get1(k)
        } else {
            Func::Get(l, k)
        },
        Expr::Add(x, y) => valued_cps(*x, MaybeCont::Next(Box::new(adder_of(*y, k)))),
        Expr::Let(rhs, body) => valued_cps(
            *rhs,
            MaybeCont::Next(Box::new(Func::Bind(Box::new(cps_of(*body, k.unbound()))))),
        ),
        Expr::Assign(l, rhs) => valued_cps(
            *rhs,
            MaybeCont::Next(
                Box::new(
                    if l == 0 {
                        Func::Store0(k)
                    } else if l == 1 {
                        Func::Store1(k)
                    } else {
                        Func::Store(l, k)
                    },
                ),
            ),
        ),
        Expr::While(pred, body) => Func::While(
            Box::new(valued_cps(*pred, MaybeCont::Done)),
            Box::new(cps_of(*body, MaybeCont::Done)),
            (*body).returns_value(),
            k,
        ),
        Expr::Then(a, b) => cps_of(
            *a,
            MaybeCont::Next(Box::new(Func::Then((*a).returns_value(), Box::new(cps_of(*b, k))))),
        ),
        Expr::Throw(_) => Func::Litr(UNIT, k),
        Expr::Catch(_) => Func::Litr(UNIT, k),
    }
}

/// The unit of `e` where its value is used: it goes on with `k` after the
/// value of `e` was pushed, which is unit, pushed by a unit of its own, where
/// `e` leaves none.
pub open spec fn valued_cps(e: Expr, k: MaybeCont) -> Func
    decreases e, 2nat,
{
    if e.returns_value() {
        cps_of(e, k)
    } else {
        cps_of(e, MaybeCont::Next(Box::new(Func::Litr(UNIT, k))))
    }
}

/// The unit that adds the value of `y` to the top value and goes on with
/// `k`: one unit of its own where `y` is the constant 1, the constant -1,
/// another constant or the second argument, and else the units of `y`
/// followed by the one that adds the two top values.
pub open spec fn adder_of(y: Expr, k: MaybeCont) -> Func
    decreases y, 3nat,
{
    match y {
        Expr::Litr(c) => if c == 1 {
            Func::AddOne(k)
        } else if c == -1 {
            Func::SubOne(k)
        } else {
            Func::AddLitr(c, k)
        },
        Expr::Arg(i) => if i == 1 {
            Func::AddArg1(k)
        } else {
            valued_cps(y, MaybeCont::Next(Box::new(Func::AddTop(k))))
        },
        _ => valued_cps(y, MaybeCont::Next(Box::new(Func::AddTop(k)))),
    }
}

/// Called on `frame` with `stack`, `c` hands back what `k` hands back when it
/// is called on `after` with `stack_k`, whenever `c` has `n` units of fuel
/// more than `k` needs.
pub open spec fn lands(
    c: Func,
    k: MaybeCont,
    args: Seq<i64>,
    frame: Seq<i64>,
    top: nat,
    stack: Seq<i64>,
    after: Seq<i64>,
    top_k: nat,
    stack_k: Seq<i64>,
    n: nat,
) -> bool {
    forall|fk: nat, f: nat|
        f >= n + fk && (#[trigger] k.run(args, after, top_k, stack_k, fk)) is Some
            ==> #[trigger] c.run(args, frame, top, stack, f) == k.run(
            args,
            after,
            top_k,
            stack_k,
            fk,
        )
}

/// The stack that the units of `e` leave when they were handed `stack` and
/// `e` evaluated to `v`.
pub open spec fn pushed(e: Expr, stack: Seq<i64>, v: i64) -> Seq<i64> {
    if e.returns_value() {
        stack.push(v)
    } else {
        stack
    }
}

/// A unit that does at once what `k` does lands where `k` does.
proof fn lands_from(
    c: Func,
    k: MaybeCont,
    args: Seq<i64>,
    frame: Seq<i64>,
    top: nat,
    stack: Seq<i64>,
    after: Seq<i64>,
    top_k: nat,
    stack_k: Seq<i64>,
    n: nat,
)
    requires
        forall|f: nat|
            f >= n ==> #[trigger] c.run(args, frame, top, stack, f) == k.run(
                args,
                after,
                top_k,
                stack_k,
                f,
            ),
    ensures
        lands(c, k, args, frame, top, stack, after, top_k, stack_k, n),
{
    assert forall|fk: nat, f: nat|
        f >= n + fk && (#[trigger] k.run(args, after, top_k, stack_k, fk)) is Some
        implies #[trigger] c.run(args, frame, top, stack, f)
            == k.run(args, after, top_k, stack_k, fk) by {
        k.run_monotonic(args, after, top_k, stack_k, fk, f);
    }
}

/// Landing composes: where `c` lands in `g` and `g` lands in `k`, `c` lands
/// in `k`.
proof fn lands_then_lands(
    c: Func,
    g: Func,
    k: MaybeCont,
    args: Seq<i64>,
    frame: Seq<i64>,
    top: nat,
    stack: Seq<i64>,
    mid: Seq<i64>,
    top_g: nat,
    stack_g: Seq<i64>,
    n1: nat,
    after: Seq<i64>,
    top_k: nat,
    stack_k: Seq<i64>,
    n2: nat,
)
    requires
        lands(c, MaybeCont::Next(Box::new(g)), args, frame, top, stack, mid, top_g, stack_g, n1),
        lands(g, k, args, mid, top_g, stack_g, after, top_k, stack_k, n2),
    ensures
        lands(c, k, args, frame, top, stack, after, top_k, stack_k, n1 + n2),
{
    let kg = MaybeCont::Next(Box::new(g));
    assert forall|fk: nat, f: nat|
        f >= n1 + n2 + fk && (#[trigger] k.run(args, after, top_k, stack_k, fk)) is Some
        implies #[trigger] c.run(args, frame, top, stack, f)
            == k.run(args, after, top_k, stack_k, fk) by {
        let fg = n2 + fk;
        assert(g.run(args, mid, top_g, stack_g, fg) == k.run(args, after, top_k, stack_k, fk));
        assert(kg.run(args, mid, top_g, stack_g, fg) == g.run(args, mid, top_g, stack_g, fg));
        assert(c.run(args, frame, top, stack, f) == kg.run(args, mid, top_g, stack_g, fg));
    }
}

/// A unit with nothing after it that lands hands back the stack and the
/// buffer that it landed with.
proof fn lands_done(
    c: Func,
    args: Seq<i64>,
    frame: Seq<i64>,
    top: nat,
    stack: Seq<i64>,
    after: Seq<i64>,
    top_k: nat,
    stack_k: Seq<i64>,
    n: nat,
)
    requires
        lands(c, MaybeCont::Done, args, frame, top, stack, after, top_k, stack_k, n),
    ensures
        forall|f: nat|
            f >= n ==> #[trigger] c.run(args, frame, top, stack, f) == Some((stack_k, after)),
{
    assert forall|f: nat|
        f >= n
        implies #[trigger] c.run(args, frame, top, stack, f) == Some((stack_k, after)) by {
        assert(MaybeCont::Done.run(args, after, top_k, stack_k, 0) == Some((stack_k, after)));
        assert(c.run(args, frame, top, stack, f) == MaybeCont::Done.run(
            args,
            after,
            top_k,
            stack_k,
            0,
        ));
    }
}

/// The units of a right operand do what the operand does, and add: handed a
/// stack with the left operand's value `a` on top, they go on with the sum
/// in its place.
#[verifier::rlimit(50)]
pub proof fn adder_runs_as_evaluated(
    y: Expr,
    k: MaybeCont,
    args: Seq<i64>,
    frame: Seq<i64>,
    top: nat,
    stack: Seq<i64>,
    a: i64,
    fuel: nat,
) -> (res: (nat, Seq<i64>))
    requires
        y.is_base(),
        y.scoped(top),
        y.args_within(args.len()),
        top <= frame.len(),
        eval(y, args, frame.take(top as int), fuel) is Some,
    ensures
        eval(y, args, frame.take(top as int), fuel) matches Some(Outcome::Value(b, l))
            && res.1.take(top as int) == l && res.1.len() >= frame.len() && lands(
            adder_of(y, k),
            k,
            args,
            frame,
            top,
            stack.push(a),
            res.1,
            top,
            stack.push(a.wrapping_add(b)),
            res.0,
        ),
    decreases fuel, y, 3nat,
{
    let c = adder_of(y, k);
    let fused = match y {
        Expr::Litr(_) => true,
        Expr::Arg(i) => i == 1,
        _ => false,
    };
    if fused {
        let b = match y {
            Expr::Litr(x) => x,
            _ => args[1],
        };
        assert(retop(stack.push(a), a.wrapping_add(b)) =~= stack.push(a.wrapping_add(b)));
        lands_from(
            c,
            k,
            args,
            frame,
            top,
            stack.push(a),
            frame,
            top,
            stack.push(a.wrapping_add(b)),
            0,
        );
        (0, frame)
    } else {
        let g = Func::AddTop(k);
        assert(c == valued_cps(y, MaybeCont::Next(Box::new(g))));
        let (n, f2) = valued_runs_as_evaluated(
            y,
            MaybeCont::Next(Box::new(g)),
            args,
            frame,
            top,
            stack.push(a),
            fuel,
        );
        let b = match eval(y, args, frame.take(top as int), fuel) {
            Some(Outcome::Value(b, _)) => b,
            _ => 0i64,
        };
        let s2 = stack.push(a).push(b);
        assert(retop(s2.drop_last(), a.wrapping_add(b)) =~= stack.push(a.wrapping_add(b)));
        lands_from(g, k, args, f2, top, s2, f2, top, stack.push(a.wrapping_add(b)), 0);
        lands_then_lands(
            c,
            g,
            k,
            args,
            frame,
            top,
            stack.push(a),
            f2,
            top,
            s2,
            n,
            f2,
            top,
            stack.push(a.wrapping_add(b)),
            0,
        );
        (n, f2)
    }
}

/// The unit of a tree does what the tree does: it goes on as its
/// continuation does when that is handed the stack with the tree's value
/// pushed, if the tree leaves one, and a buffer whose slots below `top` hold
/// the locals as the tree left them. `res.0` is the fuel that the unit needs
/// beyond what its continuation needs, `res.1` the buffer that the
/// continuation is called on.
#[verifier::rlimit(50)]
pub proof fn cps_runs_as_evaluated(
    e: Expr,
    k: MaybeCont,
    args: Seq<i64>,
    frame: Seq<i64>,
    top: nat,
    stack: Seq<i64>,
    fuel: nat,
) -> (res: (nat, Seq<i64>))
    requires
        e.is_base(),
        e.scoped(top),
        e.args_within(args.len()),
        top <= frame.len(),
        eval(e, args, frame.take(top as int), fuel) is Some,
    ensures
        eval(e, args, frame.take(top as int), fuel) matches Some(Outcome::Value(v, l))
            && res.1.take(top as int) == l && res.1.len() >= frame.len() && lands(
            cps_of(e, k),
            k,
            args,
            frame,
            top,
            stack,
            res.1,
            top,
            pushed(e, stack, v),
            res.0,
        ),
    decreases fuel, e, 1nat,
{
    let locals = frame.take(top as int);
    let c = cps_of(e, k);
    match e {
        Expr::Litr(x) => {
            lands_from(c, k, args, frame, top, stack, frame, top, stack.push(x), 0);
            (0, frame)
        },
        Expr::Arg(i) => {
            lands_from(c, k, args, frame, top, stack, frame, top, stack.push(args[i as int]), 0);
            (0, frame)
        },
        Expr::Get(l) => {
            lands_from(
                c,
                k,
                args,
                frame,
                top,
                stack,
                frame,
                top,
                stack.push(locals[locals.len() - l - 1]),
                0,
            );
            (0, frame)
        },
        Expr::Add(x, y) => {
            let g = adder_of(*y, k);
            let (n1, f1) = valued_runs_as_evaluated(
                *x,
                MaybeCont::Next(Box::new(g)),
                args,
                frame,
                top,
                stack,
                fuel,
            );
            let (a, l1) = match eval(*x, args, locals, fuel) {
                Some(Outcome::Value(a, l1)) => (a, l1),
                _ => (0i64, locals),
            };
            let (n2, f2) = adder_runs_as_evaluated(*y, k, args, f1, top, stack, a, fuel);
            let b = match eval(*y, args, l1, fuel) {
                Some(Outcome::Value(b, _)) => b,
                _ => 0i64,
            };
            lands_then_lands(
                c,
                g,
                k,
                args,
                frame,
                top,
                stack,
                f1,
                top,
                stack.push(a),
                n1,
                f2,
                top,
                stack.push(a.wrapping_add(b)),
                n2,
            );
            (n1 + n2, f2)
        },
        Expr::Let(rhs, body) => {
            let t = cps_of(*body, k.unbound());
            let g = Func::Bind(Box::new(t));
            let (n1, f1) = valued_runs_as_evaluated(
                *rhs,
                MaybeCont::Next(Box::new(g)),
                args,
                frame,
                top,
                stack,
                fuel,
            );
            let (v, l1) = match eval(*rhs, args, locals, fuel) {
                Some(Outcome::Value(v, l1)) => (v, l1),
                _ => (0i64, locals),
            };
            let inner = written(f1, top, v);
            assert(inner.take((top + 1) as int) =~= l1.push(v));
            let (n2, f2) = cps_runs_as_evaluated(
                *body,
                k.unbound(),
                args,
                inner,
                top + 1,
                stack,
                fuel,
            );
            let (res, l2) = match eval(*body, args, l1.push(v), fuel) {
                Some(Outcome::Value(res, l2)) => (res, l2),
                _ => (0i64, locals),
            };
            let s2 = pushed(*body, stack, res);
            assert(f2.take(top as int) =~= l2.drop_last());
            assert(stack.push(v).drop_last() =~= stack);
            assert forall|fk: nat, f: nat|
                f >= n2 + fk && (#[trigger] k.run(args, f2, top, s2, fk)) is Some
                implies #[trigger] g.run(args, f1, top, stack.push(v), f)
                    == k.run(args, f2, top, s2, fk) by {
                assert(k.unbound().run(args, f2, top + 1, s2, fk) == k.run(args, f2, top, s2, fk));
                assert(t.run(args, inner, top + 1, stack, f) == k.unbound().run(
                    args,
                    f2,
                    top + 1,
                    s2,
                    fk,
                ));
            }
            lands_then_lands(
                c,
                g,
                k,
                args,
                frame,
                top,
                stack,
                f1,
                top,
                stack.push(v),
                n1,
                f2,
                top,
                s2,
                n2,
            );
            (n1 + n2, f2)
        },
        Expr::Assign(l, rhs) => {
            let g = if l == 0 {
                Func::Store0(k)
            } else if l == 1 {
                Func::Store1(k)
            } else {
                Func::Store(l, k)
            };
            let (n1, f1) = valued_runs_as_evaluated(
                *rhs,
                MaybeCont::Next(Box::new(g)),
                args,
                frame,
                top,
                stack,
                fuel,
            );
            let (v, l1) = match eval(*rhs, args, locals, fuel) {
                Some(Outcome::Value(v, l1)) => (v, l1),
                _ => (0i64, locals),
            };
            let f2 = f1.update(top - 1 - l, v);
            assert(f2.take(top as int) =~= l1.update(l1.len() - l - 1, v));
            assert(stack.push(v).drop_last() =~= stack);
            lands_from(g, k, args, f1, top, stack.push(v), f2, top, stack, 0);
            lands_then_lands(
                c,
                g,
                k,
                args,
                frame,
                top,
                stack,
                f1,
                top,
                stack.push(v),
                n1,
                f2,
                top,
                stack,
                0,
            );
            (n1, f2)
        },
        Expr::While(pred, body) => {
            let f0 = (fuel - 1) as nat;
            let pc = valued_cps(*pred, MaybeCont::Done);
            let bc = cps_of(*body, MaybeCont::Done);
            let (np, fp) = valued_runs_as_evaluated(
                *pred,
                MaybeCont::Done,
                args,
                frame,
                top,
                stack,
                f0,
            );
            let (cv, l1) = match eval(*pred, args, locals, f0) {
                Some(Outcome::Value(cv, l1)) => (cv, l1),
                _ => (0i64, locals),
            };
            lands_done(pc, args, frame, top, stack, fp, top, stack.push(cv), np);
            assert(stack.push(cv).drop_last() =~= stack);
            if cv > 0 {
                let (nb, fb) = cps_runs_as_evaluated(
                    *body,
                    MaybeCont::Done,
                    args,
                    fp,
                    top,
                    stack,
                    f0,
                );
                let (bv, l2) = match eval(*body, args, l1, f0) {
                    Some(Outcome::Value(bv, l2)) => (bv, l2),
                    _ => (0i64, locals),
                };
                let sb = pushed(*body, stack, bv);
                lands_done(bc, args, fp, top, stack, fb, top, sb, nb);
                assert(stack.push(bv).drop_last() =~= stack);
                let (nw, fw) = cps_runs_as_evaluated(e, k, args, fb, top, stack, f0);
                let n = np + nb + nw + 1;
                assert forall|fk: nat, f: nat|
                    f >= n + fk && (#[trigger] k.run(args, fw, top, stack, fk)) is Some
                    implies #[trigger] c.run(args, frame, top, stack, f)
                        == k.run(args, fw, top, stack, fk) by {
                    let g = (f - 1) as nat;
                    assert(pc.run(args, frame, top, stack, g) == Some((stack.push(cv), fp)));
                    assert(bc.run(args, fp, top, stack, g) == Some((sb, fb)));
                    assert(c.run(args, fb, top, stack, g) == k.run(args, fw, top, stack, fk));
                }
                (n, fw)
            } else {
                let n = np + 1;
                assert forall|f: nat|
                    f >= n
                    implies #[trigger] c.run(args, frame, top, stack, f)
                        == k.run(args, fp, top, stack, f) by {
                    let g = (f - 1) as nat;
                    assert(pc.run(args, frame, top, stack, g) == Some((stack.push(cv), fp)));
                }
                lands_from(c, k, args, frame, top, stack, fp, top, stack, n);
                (n, fp)
            }
        },
        Expr::Then(a, b) => {
            let bk = cps_of(*b, k);
            let g = Func::Then((*a).returns_value(), Box::new(bk));
            let (n1, f1) = cps_runs_as_evaluated(
                *a,
                MaybeCont::Next(Box::new(g)),
                args,
                frame,
                top,
                stack,
                fuel,
            );
            let (av, l1) = match eval(*a, args, locals, fuel) {
                Some(Outcome::Value(av, l1)) => (av, l1),
                _ => (0i64, locals),
            };
            let sa = pushed(*a, stack, av);
            assert(stack.push(av).drop_last() =~= stack);
            let (n2, f2) = cps_runs_as_evaluated(*b, k, args, f1, top, stack, fuel);
            let v = match eval(*b, args, l1, fuel) {
                Some(Outcome::Value(v, _)) => v,
                _ => 0i64,
            };
            let s2 = pushed(*b, stack, v);
            assert forall|fk: nat, f: nat|
                f >= n2 + fk && (#[trigger] k.run(args, f2, top, s2, fk)) is Some
                implies #[trigger] g.run(args, f1, top, sa, f) == k.run(args, f2, top, s2, fk) by {
                assert(bk.run(args, f1, top, stack, f) == k.run(args, f2, top, s2, fk));
            }
            lands_then_lands(c, g, k, args, frame, top, stack, f1, top, sa, n1, f2, top, s2, n2);
            (n1 + n2, f2)
        },
        Expr::Throw(_) => (0, frame),
        Expr::Catch(_) => (0, frame),
    }
}

/// The unit of a tree whose value is used does what the tree does: it goes
/// on as its continuation does when that is handed the stack with the tree's
/// value pushed, which is unit where the tree leaves none.
#[verifier::rlimit(50)]
pub proof fn valued_runs_as_evaluated(
    e: Expr,
    k: MaybeCont,
    args: Seq<i64>,
    frame: Seq<i64>,
    top: nat,
    stack: Seq<i64>,
    fuel: nat,
) -> (res: (nat, Seq<i64>))
    requires
        e.is_base(),
        e.scoped(top),
        e.args_within(args.len()),
        top <= frame.len(),
        eval(e, args, frame.take(top as int), fuel) is Some,
    ensures
        eval(e, args, frame.take(top as int), fuel) matches Some(Outcome::Value(v, l))
            && res.1.take(top as int) == l && res.1.len() >= frame.len() && lands(
            valued_cps(e, k),
            k,
            args,
            frame,
            top,
            stack,
            res.1,
            top,
            stack.push(v),
            res.0,
        ),
    decreases fuel, e, 2nat,
{
    if e.returns_value() {
        cps_runs_as_evaluated(e, k, args, frame, top, stack, fuel)
    } else {
        let g = Func::Litr(UNIT, k);
        let c = cps_of(e, MaybeCont::Next(Box::new(g)));
        let (n, after) = cps_runs_as_evaluated(
            e,
            MaybeCont::Next(Box::new(g)),
            args,
            frame,
            top,
            stack,
            fuel,
        );
        crate::semantics::unit_where_nothing_left(e, args, frame.take(top as int), fuel);
        lands_from(g, k, args, after, top, stack, after, top, stack.push(UNIT), 0);
        lands_then_lands(
            c,
            g,
            k,
            args,
            frame,
            top,
            stack,
            after,
            top,
            stack,
            n,
            after,
            top,
            stack.push(UNIT),
            0,
        );
        (n, after)
    }
}

impl MaybeCont {
    /// The continuation that first drops the innermost local.
    pub fn map(self) -> (k: MaybeCont)
        ensures
            k == self.unbound(),
    {
        match self {
            MaybeCont::Done => MaybeCont::Done,
            MaybeCont::Next(f) => MaybeCont::Next(Box::new(Func::Unbind(f))),
        }
    }

    /// Hands `stack` to what follows.
    pub fn cont(
        &self,
        args: &[i64],
        locals: &mut Vec<i64>,
        top: usize,
        stack: Stack,
        Ghost(fuel): Ghost<nat>,
    ) -> (out: Stack)
        requires
            self.run(args@, old(locals)@, top as nat, stack@, fuel) is Some,
        ensures
            self.run(args@, old(locals)@, top as nat, stack@, fuel) == Some((out@, final(locals)@)),
        decreases fuel, *self,
    {
        match self {
            MaybeCont::Done => stack,
            MaybeCont::Next(f) => f.invoke(args, locals, top, stack, Ghost(fuel)),
        }
    }
}

impl Func {
    /// Calls the unit with `stack`, with `locals` as the buffer and `top` as
    /// its first free slot.
    pub fn invoke(
        &self,
        args: &[i64],
        locals: &mut Vec<i64>,
        top: usize,
        stack: Stack,
        Ghost(fuel): Ghost<nat>,
    ) -> (out: Stack)
        requires
            self.run(args@, old(locals)@, top as nat, stack@, fuel) is Some,
        ensures
            self.run(args@, old(locals)@, top as nat, stack@, fuel) == Some((out@, final(locals)@)),
        decreases fuel, *self,
    {
        let mut stack = stack;
        match self {
            Func::Litr(x, cont) => {
                stack.push(*x);
                cont.cont(args, locals, top, stack, Ghost(fuel))
            },
            Func::Arg0(cont) => {
                stack.push(args[0]);
                cont.cont(args, locals, top, stack, Ghost(fuel))
            },
            Func::Arg1(cont) => {
                stack.push(args[1]);
                cont.cont(args, locals, top, stack, Ghost(fuel))
            },
            Func::Arg(idx, cont) => {
                stack.push(args[*idx]);
                cont.cont(args, locals, top, stack, Ghost(fuel))
            },
            Func::Get0(cont) => {
                stack.push(locals[top - 1]);
                cont.cont(args, locals, top, stack, Ghost(fuel))
            },
            Func::Get1(cont) => {
                stack.push(locals[top - 2]);
                cont.cont(args, locals, top, stack, Ghost(fuel))
            },
            Func::Get(local, cont) => {
                stack.push(locals[top - 1 - *local]);
                cont.cont(args, locals, top, stack, Ghost(fuel))
            },
            Func::AddOne(cont) => {
                let x = stack.pop();
                stack.push(x.wrapping_add(1));
                cont.cont(args, locals, top, stack, Ghost(fuel))
            },
            Func::SubOne(cont) => {
                let x = stack.pop();
                stack.push(x.wrapping_sub(1));
                cont.cont(args, locals, top, stack, Ghost(fuel))
            },
            Func::AddLitr(y, cont) => {
                let x = stack.pop();
                stack.push(x.wrapping_add(*y));
                cont.cont(args, locals, top, stack, Ghost(fuel))
            },
            Func::AddArg1(cont) => {
                let x = stack.pop();
                stack.push(x.wrapping_add(args[1]));
                cont.cont(args, locals, top, stack, Ghost(fuel))
            },
            Func::AddTop(cont) => {
                let y = stack.pop();
                let x = stack.pop();
                stack.push(x.wrapping_add(y));
                cont.cont(args, locals, top, stack, Ghost(fuel))
            },
            Func::Bind(then) => {
                let v = stack.pop();
                store(locals, top, v);
                then.invoke(args, locals, top + 1, stack, Ghost(fuel))
            },
            Func::Unbind(cont) => cont.invoke(args, locals, top - 1, stack, Ghost(fuel)),
            Func::Store0(cont) => {
                let v = stack.pop();
                locals.set(top - 1, v);
                cont.cont(args, locals, top, stack, Ghost(fuel))
            },
            Func::Store1(cont) => {
                let v = stack.pop();
                locals.set(top - 2, v);
                cont.cont(args, locals, top, stack, Ghost(fuel))
            },
            Func::Store(local, cont) => {
                let v = stack.pop();
                locals.set(top - 1 - *local, v);
                cont.cont(args, locals, top, stack, Ghost(fuel))
            },
            Func::While(pred, body, body_returns, cont) => {
                let ghost mut left = fuel;
                let ghost enter = stack@;
                loop
                    invariant_except_break
                        self.run(args@, locals@, top as nat, stack@, left) is Some,
                        self.run(args@, locals@, top as nat, stack@, left) == self.run(
                            args@,
                            old(locals)@,
                            top as nat,
                            enter,
                            fuel,
                        ),
                    invariant
                        *self == Func::While(*pred, *body, *body_returns, *cont),
                        left <= fuel,
                    ensures
                        cont.run(args@, locals@, top as nat, stack@, left) is Some,
                        cont.run(args@, locals@, top as nat, stack@, left) == self.run(
                            args@,
                            old(locals)@,
                            top as nat,
                            enter,
                            fuel,
                        ),
                    decreases left,
                {
                    stack = pred.invoke(args, locals, top, stack, Ghost((left - 1) as nat));
                    if stack.pop() <= 0 {
                        break ;
                    } else {
                        stack = body.invoke(args, locals, top, stack, Ghost((left - 1) as nat));
                        if *body_returns {
                            stack.pop();
                        }
                        proof {
                            left = (left - 1) as nat;
                        }
                    }
                }
                cont.cont(args, locals, top, stack, Ghost(left))
            },
            Func::Then(a_returns, b) => {
                if *a_returns {
                    stack.pop();
                }
                b.invoke(args, locals, top, stack, Ghost(fuel))
            },
        }
    }
}

impl ClosureStackContinuations {
    /// Compiles `expr` with `cont` as what happens after it.
    pub fn compile_with(expr: &Expr, cont: MaybeCont) -> (func: Func)
        requires
            expr.is_base(),
        ensures
            func == cps_of(*expr, cont),
        decreases *expr, 0nat,
    {
        match expr {
            Expr::Litr(x) => Func::Litr(*x, cont),
            Expr::Arg(idx) => match *idx {
                0 => Func::Arg0(cont),
                1 => Func::Arg1(cont),
                _ => Func::Arg(*idx, cont),
            },
            Expr::Get(local) => match *local {
                0 => Func::Get0(cont),
                1 => Func::Get1(cont),
                _ => Func::Get(*local, cont),
            },
            Expr::Add(x, y) => {
                let ghost k = cont;
                let adder = match &**y {
                    Expr::Litr(1) => Func::AddOne(cont),
                    Expr::Litr(-1) => Func::SubOne(cont),
                    Expr::Litr(y) => Func::AddLitr(*y, cont),
                    Expr::Arg(1) => Func::AddArg1(cont),
                    _ => Self::compile_value(y, MaybeCont::Next(Box::new(Func::AddTop(cont)))),
                };
                assert(adder == adder_of(**y, k));
                Self::compile_value(x, MaybeCont::Next(Box::new(adder)))
            },
            Expr::Let(rhs, then) => {
                let then = Self::compile_with(then, cont.map());
                Self::compile_value(rhs, MaybeCont::Next(Box::new(Func::Bind(Box::new(then)))))
            },
            Expr::Assign(local, rhs) => match *local {
                0 => Self::compile_value(rhs, MaybeCont::Next(Box::new(Func::Store0(cont)))),
                1 => Self::compile_value(rhs, MaybeCont::Next(Box::new(Func::Store1(cont)))),
                _ => Self::compile_value(rhs, MaybeCont::Next(Box::new(Func::Store(*local, cont)))),
            },
            Expr::While(pred, body) => {
                let pred = Self::compile_value(pred, MaybeCont::Done);
                let body_returns = body.leaves_value();
                let body = Self::compile_with(body, MaybeCont::Done);
                Func::While(Box::new(pred), Box::new(body), body_returns, cont)
            },
            Expr::Then(a, b) => {
                let b = Self::compile_with(b, cont);
                let a_returns = a.leaves_value();
                Self::compile_with(a, MaybeCont::Next(Box::new(Func::Then(a_returns, Box::new(b)))))
            },
            Expr::Throw(_) => Func::Litr(UNIT, cont),
            Expr::Catch(_) => Func::Litr(UNIT, cont),
        }
    }

    /// Compiles `expr` where its value is used, with `cont` as what happens
    /// after it: where `expr` leaves no value, a unit that pushes unit comes
    /// first.
    pub fn compile_value(expr: &Expr, cont: MaybeCont) -> (func: Func)
        requires
            expr.is_base(),
        ensures
            func == valued_cps(*expr, cont),
        decreases *expr, 1nat,
    {
        if expr.leaves_value() {
            Self::compile_with(expr, cont)
        } else {
            Self::compile_with(expr, MaybeCont::Next(Box::new(Func::Litr(UNIT, cont))))
        }
    }

    /// Fuel with which the program of `e`, called on a fresh buffer with an
    /// empty stack, hands back the stack that holds the value of `e`, or
    /// nothing where `e` leaves none.
    proof fn fuel_to_end(e: Expr, args: Seq<i64>, frame: Seq<i64>) -> (n: nat)
        requires
            e.is_base(),
            e.scoped(0),
            e.args_within(args.len()),
            exists|v: i64| yields(e, args, v),
        ensures
            cps_of(e, MaybeCont::Done).run(args, frame, 0, Seq::empty(), n) matches Some((s, _))
                && yields(e, args, bottom(s)),
    {
        let fuel = crate::semantics::fuel_for_value(e, args);
        assert(frame.take(0) =~= Seq::empty());
        let (n, after) = cps_runs_as_evaluated(
            e,
            MaybeCont::Done,
            args,
            frame,
            0,
            Seq::empty(),
            fuel,
        );
        let c = cps_of(e, MaybeCont::Done);
        let o = eval(e, args, Seq::empty(), fuel).unwrap();
        let v = match o {
            Outcome::Value(v, _) => v,
            _ => 0i64,
        };
        lands_done(c, args, frame, 0, Seq::empty(), after, 0, pushed(e, Seq::empty(), v), n);
        assert(c.run(args, frame, 0, Seq::empty(), n) == Some((pushed(e, Seq::empty(), v), after)));
        if !e.returns_value() {
            crate::semantics::unit_where_nothing_left(e, args, Seq::empty(), fuel);
        }
        assert(o.exit() == crate::Exit::Value(bottom(pushed(e, Seq::empty(), v))));
        n
    }
}

/// The result that a run leaves: the value at the bottom of the stack, or
/// unit where the stack is empty.
pub open spec fn bottom(stack: Seq<i64>) -> i64 {
    if stack.len() > 0 {
        stack[0]
    } else {
        UNIT
    }
}

impl Vm for ClosureStackContinuations {
    type Program<'a> = Func;

    /// Trees of the base language.
    open spec fn supports(expr: Expr) -> bool {
        expr.is_base()
    }

    /// The program is the unit of the tree with nothing after it.
    open spec fn compiled(expr: Expr, prog: &Func) -> bool {
        *prog == cps_of(expr, MaybeCont::Done)
    }

    fn compile<'a>(expr: &'a Expr) -> (prog: Func) {
        Self::compile_with(expr, MaybeCont::Done)
    }

    fn execute(prog: &Func, args: &[i64]) -> (res: i64) {
        let mut v: Vec<i64> = vec![0; 64];
        let stack = Stack::with_capacity(1024);
        let ghost n: nat;
        proof {
            let e = choose|expr: Expr|
                Self::compiled(expr, prog) && Self::supports(expr) && evaluates(expr, args@);
            n = Self::fuel_to_end(e, args@, v@);
            assert forall|expr: Expr|
                Self::compiled(expr, prog) && Self::supports(expr) && evaluates(expr, args@)
                implies yields(expr, args@, bottom(prog.run(args@, v@, 0, Seq::empty(), n).unwrap().0)) by {
                let m = Self::fuel_to_end(expr, args@, v@);
                if n <= m {
                    prog.run_monotonic(args@, v@, 0, Seq::empty(), n, m);
                } else {
                    prog.run_monotonic(args@, v@, 0, Seq::empty(), m, n);
                }
            }
        }
        let stack = prog.invoke(args, &mut v, 0, stack, Ghost(n));
        let len = stack.len();
        if len > 0 {
            stack.get_offset(len)
        } else {
            UNIT
        }
    }
}

} // verus!
