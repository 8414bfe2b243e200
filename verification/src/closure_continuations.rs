//! Closure continuations: every node of the tree becomes a unit of code that
//! is handed the current value and holds "what happens after me" as another
//! unit, which it calls with its own result where a direct-style unit would
//! return it.
//!
//! The locals live in one buffer addressed from a first free slot `top`, as
//! in the closures engine. Entering a `Let` is calling the body with
//! `top + 1`; leaving it is the body's last unit calling a continuation that
//! goes on with `top - 1`. A `Throw` is a unit that drops its continuation
//! and hands its value back as a signal; the units that called others pass
//! the signal on, and a `Catch` turns it into the end of the run.

use vstd::prelude::*;
use crate::frame::{store, written};
use crate::semantics::{ends, eval, evaluates, Exit, Outcome};
use crate::{Expr, Vm, UNIT};

verus! {

/// The engine that compiles to [`Func`]s in continuation-passing style.
pub struct ClosureContinuations;

/// What a unit does with its result: hand it back, or call the next unit.
#[derive(Debug, PartialEq, Eq)]
pub enum MaybeCont {
    /// Nothing follows: the result is the result of the call.
    Done,
    /// This unit follows.
    Next(Box<Func>),
}

/// One unit of compiled code: the variant says which code it is, the fields
/// are what it captured when it was made. A unit is called with the current
/// value `r`.
#[derive(Debug, PartialEq, Eq)]
pub enum Func {
    /// Goes on with the captured constant.
    Litr(i64, MaybeCont),
    /// Goes on with the first argument.
    Arg0(MaybeCont),
    /// Goes on with the second argument.
    Arg1(MaybeCont),
    /// Goes on with the argument at the captured index.
    Arg(usize, MaybeCont),
    /// Goes on with the innermost local.
    Get0(MaybeCont),
    /// Goes on with the local next to the innermost.
    Get1(MaybeCont),
    /// Goes on with the local at the captured lexical offset.
    Get(usize, MaybeCont),
    /// Goes on with `r` plus one.
    AddOne(MaybeCont),
    /// Goes on with `r` minus one.
    SubOne(MaybeCont),
    /// Goes on with `r` plus the captured constant.
    AddLitr(i64, MaybeCont),
    /// Goes on with `r` plus the second argument.
    AddArg1(MaybeCont),
    /// Calls the captured right operand and goes on with `r` plus its value.
    AddEval(Box<Func>, MaybeCont),
    /// Makes `r` the innermost local and calls the captured body.
    Bind(Box<Func>),
    /// Drops the innermost local and goes on with `r`.
    Unbind(Box<Func>),
    /// Stores `r` in the innermost local and goes on with unit.
    Store0(MaybeCont),
    /// Stores `r` in the local next to the innermost and goes on with unit.
    Store1(MaybeCont),
    /// Stores `r` in the local at the captured lexical offset and goes on
    /// with unit.
    Store(usize, MaybeCont),
    /// Calls the captured body for as long as the captured test is positive,
    /// then goes on with unit.
    While(Box<Func>, Box<Func>, MaybeCont),
    /// Forgets `r` and calls the captured second part.
    Then(Box<Func>),
    /// Raises `r`: nothing goes on.
    Throw,
    /// Calls the captured body; goes on with its value, or ends the run
    /// where it raised.
    Catch(Box<Func>, MaybeCont),
}

impl MaybeCont {
    /// What the continuation makes of `result`: see [`Func::run`].
    pub open spec fn run(
        self,
        args: Seq<i64>,
        frame: Seq<i64>,
        top: nat,
        result: i64,
        fuel: nat,
    ) -> Option<
        (Exit, Seq<i64>),
    >
        decreases fuel, self,
    {
        match self {
            MaybeCont::Done => Some((Exit::Value(result), frame)),
            MaybeCont::Next(f) => (*f).run(args, frame, top, result, fuel),
        }
    }

    /// The continuation that first drops the innermost local. Where nothing
    /// follows, nothing needs to be dropped.
    pub open spec fn unbound(self) -> MaybeCont {
        match self {
            MaybeCont::Done => MaybeCont::Done,
            MaybeCont::Next(f) => MaybeCont::Next(Box::new(Func::Unbind(f))),
        }
    }
}

impl Func {
    /// How a call of the unit with the current value `r` ends, and what it
    /// leaves in the buffer, when `frame` is the buffer and `top` its first
    /// free slot; `None` where a loop nest iterates more than `fuel` deep, or
    /// where a unit reaches for a local, a slot or an argument that is not
    /// there.
    pub open spec fn run(
        self,
        args: Seq<i64>,
        frame: Seq<i64>,
        top: nat,
        r: i64,
        fuel: nat,
    ) -> Option<
        (Exit, Seq<i64>),
    >
        decreases fuel, self,
    {
        if top > frame.len() {
            None
        } else {
            match self {
                Func::Litr(x, k) => k.run(args, frame, top, x, fuel),
                Func::Arg0(k) => if 0 < args.len() {
                    k.run(args, frame, top, args[0], fuel)
                } else {
                    None
                },
                Func::Arg1(k) => if 1 < args.len() {
                    k.run(args, frame, top, args[1], fuel)
                } else {
                    None
                },
                Func::Arg(i, k) => if i < args.len() {
                    k.run(args, frame, top, args[i as int], fuel)
                } else {
                    None
                },
                Func::Get0(k) => if 0 < top {
                    k.run(args, frame, top, frame[top - 1], fuel)
                } else {
                    None
                },
                Func::Get1(k) => if 1 < top {
                    k.run(args, frame, top, frame[top - 2], fuel)
                } else {
                    None
                },
                Func::Get(l, k) => if l < top {
                    k.run(args, frame, top, frame[top - 1 - l], fuel)
                } else {
                    None
                },
                Func::AddOne(k) => k.run(args, frame, top, r.wrapping_add(1), fuel),
                Func::SubOne(k) => k.run(args, frame, top, r.wrapping_sub(1), fuel),
                Func::AddLitr(y, k) => k.run(args, frame, top, r.wrapping_add(y), fuel),
                Func::AddArg1(k) => if 1 < args.len() {
                    k.run(args, frame, top, r.wrapping_add(args[1]), fuel)
                } else {
                    None
                },
                Func::AddEval(y, k) => match (*y).run(args, frame, top, UNIT, fuel) {
                    Some((Exit::Value(b), f1)) => k.run(args, f1, top, r.wrapping_add(b), fuel),
                    other => other,
                },
                Func::Bind(then) => (*then).run(args, written(frame, top, r), top + 1, UNIT, fuel),
                Func::Unbind(k) => if 0 < top {
                    (*k).run(args, frame, (top - 1) as nat, r, fuel)
                } else {
                    None
                },
                Func::Store0(k) => if 0 < top {
                    k.run(args, frame.update(top - 1, r), top, UNIT, fuel)
                } else {
                    None
                },
                Func::Store1(k) => if 1 < top {
                    k.run(args, frame.update(top - 2, r), top, UNIT, fuel)
                } else {
                    None
                },
                Func::Store(l, k) => if l < top {
                    k.run(args, frame.update(top - 1 - l, r), top, UNIT, fuel)
                } else {
                    None
                },
                Func::While(pred, body, k) => if fuel == 0 {
                    None
                } else {
                    match (*pred).run(args, frame, top, UNIT, (fuel - 1) as nat) {
                        Some((Exit::Value(c), f1)) => if c > 0 {
                            match (*body).run(args, f1, top, UNIT, (fuel - 1) as nat) {
                                Some((Exit::Value(_), f2)) => self.run(
                                    args,
                                    f2,
                                    top,
                                    r,
                                    (fuel - 1) as nat,
                                ),
                                other => other,
                            }
                        } else {
                            k.run(args, f1, top, UNIT, fuel)
                        },
                        other => other,
                    }
                },
                Func::Then(b) => (*b).run(args, frame, top, UNIT, fuel),
                Func::Throw => Some((Exit::Thrown(r), frame)),
                Func::Catch(body, k) => match (*body).run(args, frame, top, UNIT, fuel) {
                    Some((Exit::Value(v), f1)) => k.run(args, f1, top, v, fuel),
                    Some((Exit::Thrown(p), f1)) => Some((Exit::Caught(p), f1)),
                    other => other,
                },
            }
        }
    }
}

impl MaybeCont {
    /// More fuel never changes an end that less fuel already reached.
    pub proof fn run_monotonic(
        self,
        args: Seq<i64>,
        frame: Seq<i64>,
        top: nat,
        result: i64,
        fuel: nat,
        more: nat,
    )
        requires
            self.run(args, frame, top, result, fuel) is Some,
            fuel <= more,
        ensures
            self.run(args, frame, top, result, more) == self.run(args, frame, top, result, fuel),
        decreases fuel, self,
    {
        match self {
            MaybeCont::Done => {},
            MaybeCont::Next(f) => (*f).run_monotonic(args, frame, top, result, fuel, more),
        }
    }
}

impl Func {
    /// More fuel never changes an end that less fuel already reached.
    pub proof fn run_monotonic(
        self,
        args: Seq<i64>,
        frame: Seq<i64>,
        top: nat,
        r: i64,
        fuel: nat,
        more: nat,
    )
        requires
            self.run(args, frame, top, r, fuel) is Some,
            fuel <= more,
        ensures
            self.run(args, frame, top, r, more) == self.run(args, frame, top, r, fuel),
        decreases fuel, self,
    {
        match self {
            Func::Litr(x, k) => k.run_monotonic(args, frame, top, x, fuel, more),
            Func::Arg0(k) => k.run_monotonic(args, frame, top, args[0], fuel, more),
            Func::Arg1(k) => k.run_monotonic(args, frame, top, args[1], fuel, more),
            Func::Arg(i, k) => k.run_monotonic(args, frame, top, args[i as int], fuel, more),
            Func::Get0(k) => k.run_monotonic(args, frame, top, frame[top - 1], fuel, more),
            Func::Get1(k) => k.run_monotonic(args, frame, top, frame[top - 2], fuel, more),
            Func::Get(l, k) => k.run_monotonic(args, frame, top, frame[top - 1 - l], fuel, more),
            Func::AddOne(k) => k.run_monotonic(args, frame, top, r.wrapping_add(1), fuel, more),
            Func::SubOne(k) => k.run_monotonic(args, frame, top, r.wrapping_sub(1), fuel, more),
            Func::AddLitr(y, k) => k.run_monotonic(args, frame, top, r.wrapping_add(y), fuel, more),
            Func::AddArg1(k) => k.run_monotonic(
                args,
                frame,
                top,
                r.wrapping_add(args[1]),
                fuel,
                more,
            ),
            Func::AddEval(y, k) => {
                (*y).run_monotonic(args, frame, top, UNIT, fuel, more);
                if let Some((Exit::Value(b), f1)) = (*y).run(args, frame, top, UNIT, fuel) {
                    k.run_monotonic(args, f1, top, r.wrapping_add(b), fuel, more);
                }
            },
            Func::Bind(then) => (*then).run_monotonic(
                args,
                written(frame, top, r),
                top + 1,
                UNIT,
                fuel,
                more,
            ),
            Func::Unbind(k) => (*k).run_monotonic(args, frame, (top - 1) as nat, r, fuel, more),
            Func::Store0(k) => k.run_monotonic(
                args,
                frame.update(top - 1, r),
                top,
                UNIT,
                fuel,
                more,
            ),
            Func::Store1(k) => k.run_monotonic(
                args,
                frame.update(top - 2, r),
                top,
                UNIT,
                fuel,
                more,
            ),
            Func::Store(l, k) => k.run_monotonic(
                args,
                frame.update(top - 1 - l, r),
                top,
                UNIT,
                fuel,
                more,
            ),
            Func::While(pred, body, k) => {
                let f = (fuel - 1) as nat;
                let m = (more - 1) as nat;
                (*pred).run_monotonic(args, frame, top, UNIT, f, m);
                if let Some((Exit::Value(c), f1)) = (*pred).run(args, frame, top, UNIT, f) {
                    if c > 0 {
                        (*body).run_monotonic(args, f1, top, UNIT, f, m);
                        if let Some((Exit::Value(_), f2)) = (*body).run(args, f1, top, UNIT, f) {
                            self.run_monotonic(args, f2, top, r, f, m);
                        }
                    } else {
                        k.run_monotonic(args, f1, top, UNIT, fuel, more);
                    }
                }
            },
            Func::Then(b) => (*b).run_monotonic(args, frame, top, UNIT, fuel, more),
            Func::Throw => {},
            Func::Catch(body, k) => {
                (*body).run_monotonic(args, frame, top, UNIT, fuel, more);
                if let Some((Exit::Value(v), f1)) = (*body).run(args, frame, top, UNIT, fuel) {
                    k.run_monotonic(args, f1, top, v, fuel, more);
                }
            },
        }
    }
}

/// The unit that `e` compiles to when `k` is what happens after it. A tree
/// whose value is consumed by a unit of its own (an operand, a bound value, a
/// stored value, the first part of a sequence) is compiled with that unit as
/// its continuation; the test and the body of a loop, the right operand of a
/// general sum and the body of a `Catch` are compiled with nothing after
/// them and called from the unit that needs them.
pub open spec fn cps_of(e: Expr, k: MaybeCont) -> Func
    decreases e, 1nat,
{
    match e {
        Expr::Litr(x) => Func::Litr(x, k),
        Expr::Arg(i) => if i == 0 {
            Func::Arg0(k)
        } else if i == 1 {
            Func::Arg1(k)
        } else {
            Func::Arg(i, k)
        },
        Expr::Get(l) => if l == 0 {
            Func::Get0(k)
        } else if l == 1 {
            Func::Get1(k)
        } else {
            Func::Get(l, k)
        },
        Expr::Add(x, y) => cps_of(*x, MaybeCont::Next(Box::new(adder_of(*y, k)))),
        Expr::Let(rhs, body) => cps_of(
            *rhs,
            MaybeCont::Next(Box::new(Func::Bind(Box::new(cps_of(*body, k.unbound()))))),
        ),
        Expr::Assign(l, rhs) => cps_of(
            *rhs,
            MaybeCont::Next(
                Box::new(
                    if l == 0 {
                        Func::Store0(k)
                    } else if l == 1 {
                        Func::Store1(k)
                    } else {
                        Func::Store(l, k)
                    },
                ),
            ),
        ),
        Expr::While(pred, body) => Func::While(
            Box::new(cps_of(*pred, MaybeCont::Done)),
            Box::new(cps_of(*body, MaybeCont::Done)),
            k,
        ),
        Expr::Then(a, b) => cps_of(
            *a,
            MaybeCont::Next(Box::new(Func::Then(Box::new(cps_of(*b, k))))),
        ),
        Expr::Throw(x) => cps_of(*x, MaybeCont::Next(Box::new(Func::Throw))),
        Expr::Catch(body) => Func::Catch(Box::new(cps_of(*body, MaybeCont::Done)), k),
    }
}

/// The unit that adds the value of `y` to the current value and goes on with
/// `k`: one unit of its own where `y` is the constant 1, the constant -1,
/// another constant or the second argument.
pub open spec fn adder_of(y: Expr, k: MaybeCont) -> Func
    decreases y, 2nat,
{
    match y {
        Expr::Litr(c) => if c == 1 {
            Func::AddOne(k)
        } else if c == -1 {
            Func::SubOne(k)
        } else {
            Func::AddLitr(c, k)
        },
        Expr::Arg(i) => if i == 1 {
            Func::AddArg1(k)
        } else {
            Func::AddEval(Box::new(cps_of(y, MaybeCont::Done)), k)
        },
        _ => Func::AddEval(Box::new(cps_of(y, MaybeCont::Done)), k),
    }
}

/// Called on `frame` with the current value `r`, `c` ends as `k` ends when
/// it is called on `after` with `v`, whenever `c` has `n` units of fuel more
/// than `k` needs.
pub open spec fn lands(
    c: Func,
    k: MaybeCont,
    args: Seq<i64>,
    frame: Seq<i64>,
    top: nat,
    r: i64,
    after: Seq<i64>,
    top_k: nat,
    v: i64,
    n: nat,
) -> bool {
    forall|fk: nat, f: nat|
        f >= n + fk && (#[trigger] k.run(args, after, top_k, v, fk)) is Some
            ==> #[trigger] c.run(args, frame, top, r, f) == k.run(args, after, top_k, v, fk)
}

/// The run `res` came to an end, and that end is `exit`.
pub open spec fn ends_in(res: Option<(Exit, Seq<i64>)>, exit: Exit) -> bool {
    res matches Some((x, _)) && x == exit
}

/// Called on `frame` with the current value `r`, `c` ends in `exit`
/// whenever it has `n` units of fuel.
pub open spec fn raises(
    c: Func,
    args: Seq<i64>,
    frame: Seq<i64>,
    top: nat,
    r: i64,
    exit: Exit,
    n: nat,
) -> bool {
    forall|f: nat| f >= n ==> ends_in(#[trigger] c.run(args, frame, top, r, f), exit)
}

/// What the unit `c`, compiled with `k` after it, owes to the outcome `o` of
/// its tree: for a value, to go on as `k` does with that value, on a buffer
/// `after` that holds the locals as the tree left them; for a signal, to end
/// in it.
pub open spec fn agrees(
    c: Func,
    k: MaybeCont,
    args: Seq<i64>,
    frame: Seq<i64>,
    top: nat,
    r: i64,
    o: Outcome,
    after: Seq<i64>,
    n: nat,
) -> bool {
    match o {
        Outcome::Value(v, l) => {
            &&& after.take(top as int) == l
            &&& after.len() >= frame.len()
            &&& lands(c, k, args, frame, top, r, after, top, v, n)
        },
        signal => raises(c, args, frame, top, r, signal.exit(), n),
    }
}

/// The continuation that is the unit `g`.
pub open spec fn next(g: Func) -> MaybeCont {
    MaybeCont::Next(Box::new(g))
}

/// A unit that does at once what `k` does lands where `k` does.
proof fn lands_from(
    c: Func,
    k: MaybeCont,
    args: Seq<i64>,
    frame: Seq<i64>,
    top: nat,
    r: i64,
    after: Seq<i64>,
    top_k: nat,
    v: i64,
    n: nat,
)
    requires
        forall|f: nat|
            f >= n ==> #[trigger] c.run(args, frame, top, r, f) == k.run(args, after, top_k, v, f),
    ensures
        lands(c, k, args, frame, top, r, after, top_k, v, n),
{
    assert forall|fk: nat, f: nat|
        f >= n + fk && (#[trigger] k.run(args, after, top_k, v, fk)) is Some
        implies #[trigger] c.run(args, frame, top, r, f) == k.run(args, after, top_k, v, fk) by {
        k.run_monotonic(args, after, top_k, v, fk, f);
    }
}

/// Landing composes: where `c` lands in `g` and `g` lands in `k`, `c` lands
/// in `k`.
proof fn lands_then_lands(
    c: Func,
    g: Func,
    k: MaybeCont,
    args: Seq<i64>,
    frame: Seq<i64>,
    top: nat,
    r: i64,
    mid: Seq<i64>,
    top_g: nat,
    a: i64,
    n1: nat,
    after: Seq<i64>,
    top_k: nat,
    v: i64,
    n2: nat,
)
    requires
        lands(c, next(g), args, frame, top, r, mid, top_g, a, n1),
        lands(g, k, args, mid, top_g, a, after, top_k, v, n2),
    ensures
        lands(c, k, args, frame, top, r, after, top_k, v, n1 + n2),
{
    assert forall|fk: nat, f: nat|
        f >= n1 + n2 + fk && (#[trigger] k.run(args, after, top_k, v, fk)) is Some
        implies #[trigger] c.run(args, frame, top, r, f) == k.run(args, after, top_k, v, fk) by {
        let fg = n2 + fk;
        assert(g.run(args, mid, top_g, a, fg) == k.run(args, after, top_k, v, fk));
        assert(next(g).run(args, mid, top_g, a, fg) == g.run(args, mid, top_g, a, fg));
        assert(c.run(args, frame, top, r, f) == next(g).run(args, mid, top_g, a, fg));
    }
}

/// Where `c` lands in `g` and `g` ends in a signal, `c` ends in it.
proof fn lands_then_raises(
    c: Func,
    g: Func,
    args: Seq<i64>,
    frame: Seq<i64>,
    top: nat,
    r: i64,
    mid: Seq<i64>,
    top_g: nat,
    a: i64,
    n1: nat,
    exit: Exit,
    n2: nat,
)
    requires
        lands(c, next(g), args, frame, top, r, mid, top_g, a, n1),
        raises(g, args, mid, top_g, a, exit, n2),
    ensures
        raises(c, args, frame, top, r, exit, n1 + n2),
{
    assert forall|f: nat|
        f >= n1 + n2
        implies ends_in(#[trigger] c.run(args, frame, top, r, f), exit) by {
        assert(ends_in(g.run(args, mid, top_g, a, n2), exit));
        assert(next(g).run(args, mid, top_g, a, n2) == g.run(args, mid, top_g, a, n2));
        assert(c.run(args, frame, top, r, f) == next(g).run(args, mid, top_g, a, n2));
    }
}

/// A unit with nothing after it that lands hands back the value and the
/// buffer that it landed with.
proof fn lands_done(
    c: Func,
    args: Seq<i64>,
    frame: Seq<i64>,
    top: nat,
    r: i64,
    after: Seq<i64>,
    top_k: nat,
    v: i64,
    n: nat,
)
    requires
        lands(c, MaybeCont::Done, args, frame, top, r, after, top_k, v, n),
    ensures
        forall|f: nat|
            f >= n ==> #[trigger] c.run(args, frame, top, r, f) == Some((Exit::Value(v), after)),
{
    let done = MaybeCont::Done;
    assert forall|f: nat|
        f >= n
        implies #[trigger] c.run(args, frame, top, r, f) == Some((Exit::Value(v), after)) by {
        assert(done.run(args, after, top_k, v, 0) == Some((Exit::Value(v), after)));
        assert(c.run(args, frame, top, r, f) == done.run(args, after, top_k, v, 0));
    }
}

/// What a sum makes of the outcome of its right operand when the left one
/// was `a`.
pub open spec fn summed(a: i64, o: Outcome) -> Outcome {
    match o {
        Outcome::Value(b, l) => Outcome::Value(a.wrapping_add(b), l),
        signal => signal,
    }
}

/// The unit of a right operand does what the operand does, and adds.
#[verifier::rlimit(50)]
pub proof fn adder_runs_as_evaluated(
    y: Expr,
    k: MaybeCont,
    args: Seq<i64>,
    frame: Seq<i64>,
    top: nat,
    a: i64,
    fuel: nat,
) -> (res: (nat, Seq<i64>))
    requires
        y.scoped(top),
        y.args_within(args.len()),
        top <= frame.len(),
        eval(y, args, frame.take(top as int), fuel) is Some,
    ensures
        agrees(
            adder_of(y, k),
            k,
            args,
            frame,
            top,
            a,
            summed(a, eval(y, args, frame.take(top as int), fuel).unwrap()),
            res.1,
            res.0,
        ),
    decreases fuel, y, 2nat,
{
    let c = adder_of(y, k);
    let fused = match y {
        Expr::Litr(_) => true,
        Expr::Arg(i) => i == 1,
        _ => false,
    };
    if fused {
        let b = match y {
            Expr::Litr(x) => x,
            _ => args[1],
        };
        lands_from(c, k, args, frame, top, a, frame, top, a.wrapping_add(b), 0);
        (0, frame)
    } else {
        let yc = cps_of(y, MaybeCont::Done);
        let (n, f2) = cps_runs_as_evaluated(y, MaybeCont::Done, args, frame, top, UNIT, fuel);
        match eval(y, args, frame.take(top as int), fuel).unwrap() {
            Outcome::Value(b, _) => {
                lands_done(yc, args, frame, top, UNIT, f2, top, b, n);
                let sum = a.wrapping_add(b);
                assert forall|f: nat|
                    f >= n
                    implies #[trigger] c.run(args, frame, top, a, f)
                        == k.run(args, f2, top, sum, f) by {
                    assert(yc.run(args, frame, top, UNIT, f) == Some((Exit::Value(b), f2)));
                }
                lands_from(c, k, args, frame, top, a, f2, top, sum, n);
            },
            signal => {
                let x = signal.exit();
                assert forall|f: nat|
                    f >= n
                    implies ends_in(#[trigger] c.run(args, frame, top, a, f), x) by {
                    assert(ends_in(yc.run(args, frame, top, UNIT, f), x));
                }
            },
        }
        (n, f2)
    }
}

/// The unit of a loop does what the loop does.
#[verifier::rlimit(50)]
proof fn while_runs_as_evaluated(
    e: Expr,
    k: MaybeCont,
    args: Seq<i64>,
    frame: Seq<i64>,
    top: nat,
    r: i64,
    fuel: nat,
) -> (res: (nat, Seq<i64>))
    requires
        e is While,
        e.scoped(top),
        e.args_within(args.len()),
        top <= frame.len(),
        eval(e, args, frame.take(top as int), fuel) is Some,
    ensures
        agrees(
            cps_of(e, k),
            k,
            args,
            frame,
            top,
            r,
            eval(e, args, frame.take(top as int), fuel).unwrap(),
            res.1,
            res.0,
        ),
    decreases fuel, e, 0nat,
{
    let locals = frame.take(top as int);
    let c = cps_of(e, k);
    let done = MaybeCont::Done;
    let f0 = (fuel - 1) as nat;
    let (pred, body) = match e {
        Expr::While(pred, body) => (*pred, *body),
        _ => (e, e),
    };
    let pc = cps_of(pred, done);
    let bc = cps_of(body, done);
    let (np, fp) = cps_runs_as_evaluated(pred, done, args, frame, top, UNIT, f0);
    match eval(pred, args, locals, f0).unwrap() {
        Outcome::Value(cv, l1) => {
            lands_done(pc, args, frame, top, UNIT, fp, top, cv, np);
            let tested = Some((Exit::Value(cv), fp));
            if cv > 0 {
                let (nb, fb) = cps_runs_as_evaluated(body, done, args, fp, top, UNIT, f0);
                match eval(body, args, l1, f0).unwrap() {
                    Outcome::Value(bv, l2) => {
                        lands_done(bc, args, fp, top, UNIT, fb, top, bv, nb);
                        let looped = Some((Exit::Value(bv), fb));
                        let (nw, fw) = while_runs_as_evaluated(e, k, args, fb, top, r, f0);
                        let n = np + nb + nw + 1;
                        match eval(e, args, l2, f0).unwrap() {
                            Outcome::Value(u, _) => {
                                assert forall|fk: nat, f: nat|
                                    f >= n + fk && (#[trigger] k.run(args, fw, top, u, fk)) is Some
                                    implies #[trigger] c.run(args, frame, top, r, f)
                                        == k.run(args, fw, top, u, fk) by {
                                    let g = (f - 1) as nat;
                                    assert(pc.run(args, frame, top, UNIT, g) == tested);
                                    assert(bc.run(args, fp, top, UNIT, g) == looped);
                                    assert(
                                        c.run(args, fb, top, r, g) == k.run(args, fw, top, u, fk)
                                    );
                                }
                            },
                            signal => {
                                let x = signal.exit();
                                assert forall|f: nat|
                                    f >= n
                                    implies ends_in(#[trigger] c.run(args, frame, top, r, f), x) by {
                                    let g = (f - 1) as nat;
                                    assert(pc.run(args, frame, top, UNIT, g) == tested);
                                    assert(bc.run(args, fp, top, UNIT, g) == looped);
                                    assert(ends_in(c.run(args, fb, top, r, g), x));
                                }
                            },
                        }
                        (n, fw)
                    },
                    signal => {
                        let x = signal.exit();
                        let n = np + nb + 1;
                        assert forall|f: nat|
                            f >= n
                            implies ends_in(#[trigger] c.run(args, frame, top, r, f), x) by {
                            let g = (f - 1) as nat;
                            assert(pc.run(args, frame, top, UNIT, g) == tested);
                            assert(ends_in(bc.run(args, fp, top, UNIT, g), x));
                        }
                        (n, fb)
                    },
                }
            } else {
                let n = np + 1;
                assert forall|f: nat|
                    f >= n
                    implies #[trigger] c.run(args, frame, top, r, f)
                        == k.run(args, fp, top, UNIT, f) by {
                    let g = (f - 1) as nat;
                    assert(pc.run(args, frame, top, UNIT, g) == tested);
                }
                lands_from(c, k, args, frame, top, r, fp, top, UNIT, n);
                (n, fp)
            }
        },
        signal => {
            let x = signal.exit();
            let n = np + 1;
            assert forall|f: nat|
                f >= n
                implies ends_in(#[trigger] c.run(args, frame, top, r, f), x) by {
                let g = (f - 1) as nat;
                assert(ends_in(pc.run(args, frame, top, UNIT, g), x));
            }
            (n, fp)
        },
    }
}

/// The unit of a tree does what the tree does: where the tree evaluates to a
/// value, the unit goes on as its continuation does with that value, on a
/// buffer whose slots below `top` hold the locals as the tree left them;
/// where the tree raises, the unit ends in that signal. `res.0` is the fuel
/// that the unit needs beyond what its continuation needs, `res.1` the
/// buffer that the continuation is called on.
#[verifier::rlimit(50)]
pub proof fn cps_runs_as_evaluated(
    e: Expr,
    k: MaybeCont,
    args: Seq<i64>,
    frame: Seq<i64>,
    top: nat,
    r: i64,
    fuel: nat,
) -> (res: (nat, Seq<i64>))
    requires
        e.scoped(top),
        e.args_within(args.len()),
        top <= frame.len(),
        eval(e, args, frame.take(top as int), fuel) is Some,
    ensures
        agrees(
            cps_of(e, k),
            k,
            args,
            frame,
            top,
            r,
            eval(e, args, frame.take(top as int), fuel).unwrap(),
            res.1,
            res.0,
        ),
    decreases fuel, e, 1nat,
{
    let locals = frame.take(top as int);
    let c = cps_of(e, k);
    let done = MaybeCont::Done;
    crate::semantics::eval_keeps_depth(e, args, locals, fuel);
    match e {
        Expr::Litr(x) => {
            lands_from(c, k, args, frame, top, r, frame, top, x, 0);
            (0, frame)
        },
        Expr::Arg(i) => {
            lands_from(c, k, args, frame, top, r, frame, top, args[i as int], 0);
            (0, frame)
        },
        Expr::Get(l) => {
            lands_from(c, k, args, frame, top, r, frame, top, locals[locals.len() - l - 1], 0);
            (0, frame)
        },
        Expr::Add(x, y) => {
            let g = adder_of(*y, k);
            let (n1, f1) = cps_runs_as_evaluated(*x, next(g), args, frame, top, r, fuel);
            match eval(*x, args, locals, fuel).unwrap() {
                Outcome::Value(a, l1) => {
                    crate::semantics::eval_keeps_depth(*x, args, locals, fuel);
                    let (n2, f2) = adder_runs_as_evaluated(*y, k, args, f1, top, a, fuel);
                    match eval(*y, args, l1, fuel).unwrap() {
                        Outcome::Value(b, _) => {
                            let sum = a.wrapping_add(b);
                            lands_then_lands(
                                c, g, k, args, frame, top, r, f1, top, a, n1, f2, top, sum, n2,
                            );
                        },
                        signal => {
                            let x = signal.exit();
                            lands_then_raises(c, g, args, frame, top, r, f1, top, a, n1, x, n2);
                        },
                    }
                    (n1 + n2, f2)
                },
                _ => (n1, f1),
            }
        },
        Expr::Let(rhs, body) => {
            let t = cps_of(*body, k.unbound());
            let g = Func::Bind(Box::new(t));
            let (n1, f1) = cps_runs_as_evaluated(*rhs, next(g), args, frame, top, r, fuel);
            match eval(*rhs, args, locals, fuel).unwrap() {
                Outcome::Value(v, l1) => {
                    crate::semantics::eval_keeps_depth(*rhs, args, locals, fuel);
                    let inner = written(f1, top, v);
                    assert(inner.take((top + 1) as int) =~= l1.push(v));
                    crate::semantics::eval_keeps_depth(*body, args, l1.push(v), fuel);
                    let (n2, f2) = cps_runs_as_evaluated(
                        *body,
                        k.unbound(),
                        args,
                        inner,
                        top + 1,
                        UNIT,
                        fuel,
                    );
                    match eval(*body, args, l1.push(v), fuel).unwrap() {
                        Outcome::Value(res, l2) => {
                            assert(f2.take(top as int) =~= l2.drop_last());
                            assert forall|fk: nat, f: nat|
                                f >= n2 + fk && (#[trigger] k.run(args, f2, top, res, fk)) is Some
                                implies #[trigger] g.run(args, f1, top, v, f)
                                    == k.run(args, f2, top, res, fk) by {
                                let unbound = k.unbound().run(args, f2, top + 1, res, fk);
                                assert(unbound == k.run(args, f2, top, res, fk));
                                assert(t.run(args, inner, top + 1, UNIT, f) == unbound);
                            }
                            lands_then_lands(
                                c, g, k, args, frame, top, r, f1, top, v, n1, f2, top, res, n2,
                            );
                        },
                        signal => {
                            let x = signal.exit();
                            assert forall|f: nat|
                                f >= n2
                                implies ends_in(#[trigger] g.run(args, f1, top, v, f), x) by {
                                assert(ends_in(t.run(args, inner, top + 1, UNIT, f), x));
                            }
                            lands_then_raises(c, g, args, frame, top, r, f1, top, v, n1, x, n2);
                        },
                    }
                    (n1 + n2, f2)
                },
                _ => (n1, f1),
            }
        },
        Expr::Assign(l, rhs) => {
            let g = if l == 0 {
                Func::Store0(k)
            } else if l == 1 {
                Func::Store1(k)
            } else {
                Func::Store(l, k)
            };
            let (n1, f1) = cps_runs_as_evaluated(*rhs, next(g), args, frame, top, r, fuel);
            match eval(*rhs, args, locals, fuel).unwrap() {
                Outcome::Value(v, l1) => {
                    crate::semantics::eval_keeps_depth(*rhs, args, locals, fuel);
                    let f2 = f1.update(top - 1 - l, v);
                    assert(f2.take(top as int) =~= l1.update(l1.len() - l - 1, v));
                    lands_from(g, k, args, f1, top, v, f2, top, UNIT, 0);
                    lands_then_lands(
                        c, g, k, args, frame, top, r, f1, top, v, n1, f2, top, UNIT, 0,
                    );
                    (n1, f2)
                },
                _ => (n1, f1),
            }
        },
        Expr::While(_, _) => while_runs_as_evaluated(e, k, args, frame, top, r, fuel),
        Expr::Then(a, b) => {
            let bk = cps_of(*b, k);
            let g = Func::Then(Box::new(bk));
            let (n1, f1) = cps_runs_as_evaluated(*a, next(g), args, frame, top, r, fuel);
            match eval(*a, args, locals, fuel).unwrap() {
                Outcome::Value(av, l1) => {
                    crate::semantics::eval_keeps_depth(*a, args, locals, fuel);
                    let (n2, f2) = cps_runs_as_evaluated(*b, k, args, f1, top, UNIT, fuel);
                    match eval(*b, args, l1, fuel).unwrap() {
                        Outcome::Value(v, _) => {
                            assert forall|fk: nat, f: nat|
                                f >= n2 + fk && (#[trigger] k.run(args, f2, top, v, fk)) is Some
                                implies #[trigger] g.run(args, f1, top, av, f)
                                    == k.run(args, f2, top, v, fk) by {
                                assert(
                                    bk.run(args, f1, top, UNIT, f) == k.run(args, f2, top, v, fk)
                                );
                            }
                            lands_then_lands(
                                c, g, k, args, frame, top, r, f1, top, av, n1, f2, top, v, n2,
                            );
                        },
                        signal => {
                            let x = signal.exit();
                            assert forall|f: nat|
                                f >= n2
                                implies ends_in(#[trigger] g.run(args, f1, top, av, f), x) by {
                                assert(ends_in(bk.run(args, f1, top, UNIT, f), x));
                            }
                            lands_then_raises(c, g, args, frame, top, r, f1, top, av, n1, x, n2);
                        },
                    }
                    (n1 + n2, f2)
                },
                _ => (n1, f1),
            }
        },
        Expr::Throw(x) => {
            let g = Func::Throw;
            let (n1, f1) = cps_runs_as_evaluated(*x, next(g), args, frame, top, r, fuel);
            match eval(*x, args, locals, fuel).unwrap() {
                Outcome::Value(v, _) => {
                    assert(raises(g, args, f1, top, v, Exit::Thrown(v), 0));
                    lands_then_raises(
                        c,
                        g,
                        args,
                        frame,
                        top,
                        r,
                        f1,
                        top,
                        v,
                        n1,
                        Exit::Thrown(v),
                        0,
                    );
                },
                _ => {},
            }
            (n1, f1)
        },
        Expr::Catch(body) => {
            let bc = cps_of(*body, done);
            let (n1, f1) = cps_runs_as_evaluated(*body, done, args, frame, top, UNIT, fuel);
            match eval(*body, args, locals, fuel).unwrap() {
                Outcome::Value(v, _) => {
                    lands_done(bc, args, frame, top, UNIT, f1, top, v, n1);
                    assert forall|f: nat|
                        f >= n1
                        implies #[trigger] c.run(args, frame, top, r, f)
                            == k.run(args, f1, top, v, f) by {
                        assert(bc.run(args, frame, top, UNIT, f) == Some((Exit::Value(v), f1)));
                    }
                    lands_from(c, k, args, frame, top, r, f1, top, v, n1);
                },
                signal => {
                    let p = match signal {
                        Outcome::Thrown(p) => p,
                        Outcome::Caught(p) => p,
                        _ => 0i64,
                    };
                    assert forall|f: nat|
                        f >= n1
                        implies ends_in(#[trigger] c.run(args, frame, top, r, f), Exit::Caught(p)) by {
                        assert(ends_in(bc.run(args, frame, top, UNIT, f), signal.exit()));
                    }
                },
            }
            (n1, f1)
        },
    }
}

impl MaybeCont {
    /// The continuation that first drops the innermost local.
    pub fn map(self) -> (k: MaybeCont)
        ensures
            k == self.unbound(),
    {
        match self {
            MaybeCont::Done => MaybeCont::Done,
            MaybeCont::Next(f) => MaybeCont::Next(Box::new(Func::Unbind(f))),
        }
    }

    /// Hands `result` to what follows.
    pub fn cont(
        &self,
        args: &[i64],
        locals: &mut Vec<i64>,
        top: usize,
        result: i64,
        Ghost(fuel): Ghost<nat>,
    ) -> (exit: Exit)
        requires
            self.run(args@, old(locals)@, top as nat, result, fuel) is Some,
        ensures
            self.run(args@, old(locals)@, top as nat, result, fuel) == Some((exit, final(locals)@)),
        decreases fuel, *self,
    {
        match self {
            MaybeCont::Done => Exit::Value(result),
            MaybeCont::Next(f) => f.invoke(args, locals, top, result, Ghost(fuel)),
        }
    }
}

impl Func {
    /// Calls the unit with the current value `ret`, with `locals` as the
    /// buffer and `top` as its first free slot.
    pub fn invoke(
        &self,
        args: &[i64],
        locals: &mut Vec<i64>,
        top: usize,
        ret: i64,
        Ghost(fuel): Ghost<nat>,
    ) -> (exit: Exit)
        requires
            self.run(args@, old(locals)@, top as nat, ret, fuel) is Some,
        ensures
            self.run(args@, old(locals)@, top as nat, ret, fuel) == Some((exit, final(locals)@)),
        decreases fuel, *self,
    {
        match self {
            Func::Litr(x, cont) => cont.cont(args, locals, top, *x, Ghost(fuel)),
            Func::Arg0(cont) => cont.cont(args, locals, top, args[0], Ghost(fuel)),
            Func::Arg1(cont) => cont.cont(args, locals, top, args[1], Ghost(fuel)),
            Func::Arg(idx, cont) => cont.cont(args, locals, top, args[*idx], Ghost(fuel)),
            Func::Get0(cont) => {
                let v = locals[top - 1];
                cont.cont(args, locals, top, v, Ghost(fuel))
            },
            Func::Get1(cont) => {
                let v = locals[top - 2];
                cont.cont(args, locals, top, v, Ghost(fuel))
            },
            Func::Get(local, cont) => {
                let v = locals[top - 1 - *local];
                cont.cont(args, locals, top, v, Ghost(fuel))
            },
            Func::AddOne(cont) => cont.cont(args, locals, top, ret.wrapping_add(1), Ghost(fuel)),
            Func::SubOne(cont) => cont.cont(args, locals, top, ret.wrapping_sub(1), Ghost(fuel)),
            Func::AddLitr(y, cont) => cont.cont(
                args,
                locals,
                top,
                ret.wrapping_add(*y),
                Ghost(fuel),
            ),
            Func::AddArg1(cont) => cont.cont(
                args,
                locals,
                top,
                ret.wrapping_add(args[1]),
                Ghost(fuel),
            ),
            Func::AddEval(y, cont) => match y.invoke(args, locals, top, UNIT, Ghost(fuel)) {
                Exit::Value(y) => cont.cont(args, locals, top, ret.wrapping_add(y), Ghost(fuel)),
                other => other,
            },
            Func::Bind(then) => {
                store(locals, top, ret);
                then.invoke(args, locals, top + 1, UNIT, Ghost(fuel))
            },
            Func::Unbind(cont) => cont.invoke(args, locals, top - 1, ret, Ghost(fuel)),
            Func::Store0(cont) => {
                locals.set(top - 1, ret);
                cont.cont(args, locals, top, UNIT, Ghost(fuel))
            },
            Func::Store1(cont) => {
                locals.set(top - 2, ret);
                cont.cont(args, locals, top, UNIT, Ghost(fuel))
            },
            Func::Store(local, cont) => {
                locals.set(top - 1 - *local, ret);
                cont.cont(args, locals, top, UNIT, Ghost(fuel))
            },
            Func::While(pred, body, cont) => {
                let ghost mut left = fuel;
                loop
                    invariant_except_break
                        self.run(args@, locals@, top as nat, ret, left) is Some,
                        self.run(args@, locals@, top as nat, ret, left) == self.run(
                            args@,
                            old(locals)@,
                            top as nat,
                            ret,
                            fuel,
                        ),
                    invariant
                        *self == Func::While(*pred, *body, *cont),
                        left <= fuel,
                    ensures
                        cont.run(args@, locals@, top as nat, UNIT, left) is Some,
                        cont.run(args@, locals@, top as nat, UNIT, left) == self.run(
                            args@,
                            old(locals)@,
                            top as nat,
                            ret,
                            fuel,
                        ),
                    decreases left,
                {
                    match pred.invoke(args, locals, top, UNIT, Ghost((left - 1) as nat)) {
                        Exit::Value(c) => {
                            if c > 0 {
                                match body.invoke(
                                    args,
                                    locals,
                                    top,
                                    UNIT,
                                    Ghost((left - 1) as nat),
                                ) {
                                    Exit::Value(_) => {
                                        proof {
                                            left = (left - 1) as nat;
                                        }
                                    },
                                    other => {
                                        return other;
                                    },
                                }
                            } else {
                                break ;
                            }
                        },
                        other => {
                            return other;
                        },
                    }
                }
                cont.cont(args, locals, top, UNIT, Ghost(left))
            },
            Func::Then(b) => b.invoke(args, locals, top, UNIT, Ghost(fuel)),
            Func::Throw => Exit::Thrown(ret),
            Func::Catch(body, cont) => match body.invoke(args, locals, top, UNIT, Ghost(fuel)) {
                Exit::Value(v) => cont.cont(args, locals, top, v, Ghost(fuel)),
                Exit::Thrown(p) => Exit::Caught(p),
                other => other,
            },
        }
    }
}

impl ClosureContinuations {
    /// `prog` was compiled from `expr`, and the run of `expr` on `args` comes
    /// to an end: the condition under which `run_to_exit` may be
    /// called.
    pub open spec fn halts(expr: Expr, prog: &Func, args: Seq<i64>) -> bool {
        &&& *prog == #[trigger] cps_of(expr, MaybeCont::Done)
        &&& expr.scoped(0)
        &&& expr.args_within(args.len())
        &&& exists|x: Exit| ends(expr, args, x)
    }

    /// Compiles `expr` with `cont` as what happens after it.
    pub fn compile_with(expr: &Expr, cont: MaybeCont) -> (func: Func)
        ensures
            func == cps_of(*expr, cont),
        decreases *expr,
    {
        match expr {
            Expr::Litr(x) => Func::Litr(*x, cont),
            Expr::Arg(idx) => match *idx {
                0 => Func::Arg0(cont),
                1 => Func::Arg1(cont),
                _ => Func::Arg(*idx, cont),
            },
            Expr::Get(local) => match *local {
                0 => Func::Get0(cont),
                1 => Func::Get1(cont),
                _ => Func::Get(*local, cont),
            },
            Expr::Add(x, y) => {
                let ghost k = cont;
                let adder = match &**y {
                    Expr::Litr(1) => Func::AddOne(cont),
                    Expr::Litr(-1) => Func::SubOne(cont),
                    Expr::Litr(y) => Func::AddLitr(*y, cont),
                    Expr::Arg(1) => Func::AddArg1(cont),
                    _ => {
                        let y = Self::compile_with(y, MaybeCont::Done);
                        Func::AddEval(Box::new(y), cont)
                    },
                };
                assert(adder == adder_of(**y, k));
                Self::compile_with(x, MaybeCont::Next(Box::new(adder)))
            },
            Expr::Let(rhs, then) => {
                let then = Self::compile_with(then, cont.map());
                Self::compile_with(rhs, MaybeCont::Next(Box::new(Func::Bind(Box::new(then)))))
            },
            Expr::Assign(local, rhs) => match *local {
                0 => Self::compile_with(rhs, MaybeCont::Next(Box::new(Func::Store0(cont)))),
                1 => Self::compile_with(rhs, MaybeCont::Next(Box::new(Func::Store1(cont)))),
                _ => Self::compile_with(rhs, MaybeCont::Next(Box::new(Func::Store(*local, cont)))),
            },
            Expr::While(pred, body) => {
                let pred = Self::compile_with(pred, MaybeCont::Done);
                let body = Self::compile_with(body, MaybeCont::Done);
                Func::While(Box::new(pred), Box::new(body), cont)
            },
            Expr::Then(a, b) => {
                let b = Self::compile_with(b, cont);
                Self::compile_with(a, MaybeCont::Next(Box::new(Func::Then(Box::new(b)))))
            },
            Expr::Throw(x) => Self::compile_with(x, MaybeCont::Next(Box::new(Func::Throw))),
            Expr::Catch(body) => {
                let body = Self::compile_with(body, MaybeCont::Done);
                Func::Catch(Box::new(body), cont)
            },
        }
    }

    /// Runs `prog` on `args` and says how the run ended: with a value, with
    /// a payload that a `Catch` stopped, or with one that nothing stopped.
    pub fn run_to_exit(prog: &Func, args: &[i64]) -> (exit: Exit)
        requires
            exists|expr: Expr| Self::halts(expr, prog, args@),
        ensures
            forall|expr: Expr| Self::halts(expr, prog, args@) ==> ends(expr, args@, exit),
    {
        let mut v: Vec<i64> = vec![0; 64];
        let ghost n: nat;
        proof {
            let e = choose|expr: Expr| Self::halts(expr, prog, args@);
            n = Self::fuel_to_end(e, args@, v@);
            assert forall|expr: Expr|
                Self::halts(expr, prog, args@)
                implies ends(expr, args@, prog.run(args@, v@, 0, UNIT, n).unwrap().0) by {
                let m = Self::fuel_to_end(expr, args@, v@);
                if n <= m {
                    prog.run_monotonic(args@, v@, 0, UNIT, n, m);
                } else {
                    prog.run_monotonic(args@, v@, 0, UNIT, m, n);
                }
            }
        }
        prog.invoke(args, &mut v, 0, UNIT, Ghost(n))
    }

    /// Fuel with which the program of `e`, called on a fresh buffer, comes
    /// to the end that `e` comes to.
    proof fn fuel_to_end(e: Expr, args: Seq<i64>, frame: Seq<i64>) -> (n: nat)
        requires
            e.scoped(0),
            e.args_within(args.len()),
            exists|x: Exit| ends(e, args, x),
        ensures
            cps_of(e, MaybeCont::Done).run(args, frame, 0, UNIT, n) matches Some((x, _)) && ends(
                e,
                args,
                x,
            ),
    {
        let x = choose|x: Exit| ends(e, args, x);
        let fuel = choose|fuel: nat| (#[trigger] eval(e, args, Seq::empty(), fuel)) matches Some(o)
            && o.exit() == x;
        assert(frame.take(0) =~= Seq::empty());
        let (n, after) = cps_runs_as_evaluated(e, MaybeCont::Done, args, frame, 0, UNIT, fuel);
        let c = cps_of(e, MaybeCont::Done);
        match eval(e, args, Seq::empty(), fuel).unwrap() {
            Outcome::Value(v, _) => {
                lands_done(c, args, frame, 0, UNIT, after, 0, v, n);
                assert(c.run(args, frame, 0, UNIT, n) == Some((Exit::Value(v), after)));
            },
            Outcome::Thrown(p) => {
                assert(ends_in(c.run(args, frame, 0, UNIT, n), Exit::Thrown(p)));
            },
            Outcome::Caught(p) => {
                assert(ends_in(c.run(args, frame, 0, UNIT, n), Exit::Caught(p)));
            },
        }
        n
    }
}

impl Vm for ClosureContinuations {
    type Program<'a> = Func;

    /// Every tree, `Throw` and `Catch` included.
    open spec fn supports(expr: Expr) -> bool {
        true
    }

    /// The program is the unit of the tree with nothing after it.
    open spec fn compiled(expr: Expr, prog: &Func) -> bool {
        *prog == cps_of(expr, MaybeCont::Done)
    }

    fn compile<'a>(expr: &'a Expr) -> (prog: Func) {
        Self::compile_with(expr, MaybeCont::Done)
    }

    fn execute(prog: &Func, args: &[i64]) -> (res: i64) {
        proof {
            let e = choose|expr: Expr|
                Self::compiled(expr, prog) && Self::supports(expr) && evaluates(expr, args@);
            let v = choose|v: i64| crate::semantics::yields(e, args@, v);
            assert(ends(e, args@, Exit::Value(v)));
            assert(Self::halts(e, prog, args@));
        }
        let exit = Self::run_to_exit(prog, args);
        proof {
            assert forall|expr: Expr|
                Self::compiled(expr, prog) && Self::supports(expr) && evaluates(expr, args@)
                implies ends(expr, args@, exit) && exit is Value by {
                let v = choose|v: i64| crate::semantics::yields(expr, args@, v);
                assert(ends(expr, args@, Exit::Value(v)));
                assert(Self::halts(expr, prog, args@));
                crate::semantics::ends_unique(expr, args@, exit, Exit::Value(v));
            }
        }
        match exit {
            Exit::Value(v) => v,
            _ => UNIT,
        }
    }
}

} // verus!
