//! What a tree of the language means.

use vstd::prelude::*;
use crate::Expr;
use crate::UNIT;

verus! {

/// How the evaluation of a tree ends.
pub enum Outcome {
    /// With a value, and with the locals as the tree left them.
    Value(i64, Seq<i64>),
    /// A `Throw` raised this payload and no `Catch` has met it yet.
    Thrown(i64),
    /// A `Catch` intercepted this payload; nothing runs after that.
    Caught(i64),
}

/// How a run ends, as an engine reports it.
#[derive(Clone, Copy, Debug, PartialEq, Eq, Structural)]
pub enum Exit {
    /// The tree ran to its end with this value.
    Value(i64),
    /// This payload was raised and never intercepted.
    Thrown(i64),
    /// This payload was raised and stopped the run at a `Catch`.
    Caught(i64),
}

impl Outcome {
    /// The outcome without the locals.
    pub open spec fn exit(self) -> Exit {
        match self {
            Outcome::Value(v, _) => Exit::Value(v),
            Outcome::Thrown(p) => Exit::Thrown(p),
            Outcome::Caught(p) => Exit::Caught(p),
        }
    }
}

impl Expr {
    /// Every `Get` and `Assign` names one of the bindings around it, `depth`
    /// of which lie outside the tree.
    pub open spec fn scoped(self, depth: nat) -> bool
        decreases self,
    {
        match self {
            Expr::Litr(_) => true,
            Expr::Arg(_) => true,
            Expr::Get(k) => k < depth,
            Expr::Add(x, y) => (*x).scoped(depth) && (*y).scoped(depth),
            Expr::Let(rhs, body) => (*rhs).scoped(depth) && (*body).scoped(depth + 1),
            Expr::Assign(k, rhs) => k < depth && (*rhs).scoped(depth),
            Expr::While(pred, body) => (*pred).scoped(depth) && (*body).scoped(depth),
            Expr::Then(a, b) => (*a).scoped(depth) && (*b).scoped(depth),
            Expr::Throw(x) => (*x).scoped(depth),
            Expr::Catch(body) => (*body).scoped(depth),
        }
    }

    /// Every `Arg` index in the tree is below `n`.
    pub open spec fn args_within(self, n: nat) -> bool
        decreases self,
    {
        match self {
            Expr::Litr(_) => true,
            Expr::Arg(i) => i < n,
            Expr::Get(_) => true,
            Expr::Add(x, y) => (*x).args_within(n) && (*y).args_within(n),
            Expr::Let(rhs, body) => (*rhs).args_within(n) && (*body).args_within(n),
            Expr::Assign(_, rhs) => (*rhs).args_within(n),
            Expr::While(pred, body) => (*pred).args_within(n) && (*body).args_within(n),
            Expr::Then(a, b) => (*a).args_within(n) && (*b).args_within(n),
            Expr::Throw(x) => (*x).args_within(n),
            Expr::Catch(body) => (*body).args_within(n),
        }
    }

    /// The tree holds neither `Throw` nor `Catch`.
    pub open spec fn is_base(self) -> bool
        decreases self,
    {
        match self {
            Expr::Litr(_) => true,
            Expr::Arg(_) => true,
            Expr::Get(_) => true,
            Expr::Add(x, y) => (*x).is_base() && (*y).is_base(),
            Expr::Let(rhs, body) => (*rhs).is_base() && (*body).is_base(),
            Expr::Assign(_, rhs) => (*rhs).is_base(),
            Expr::While(pred, body) => (*pred).is_base() && (*body).is_base(),
            Expr::Then(a, b) => (*a).is_base() && (*b).is_base(),
            Expr::Throw(_) => false,
            Expr::Catch(_) => false,
        }
    }
}

impl Expr {
    /// The tree leaves a value behind: it ends in a literal, an argument, a
    /// local or a sum, and not in an assignment or a loop.
    pub open spec fn returns_value(self) -> bool
        decreases self,
    {
        match self {
            Expr::Litr(_) => true,
            Expr::Arg(_) => true,
            Expr::Get(_) => true,
            Expr::Add(_, _) => true,
            Expr::Let(_, body) => (*body).returns_value(),
            Expr::Assign(_, _) => false,
            Expr::While(_, _) => false,
            Expr::Then(_, b) => (*b).returns_value(),
            Expr::Throw(_) => false,
            Expr::Catch(body) => (*body).returns_value(),
        }
    }
}

impl Expr {
    /// Whether the tree leaves a value behind, as [`Expr::returns_value`]
    /// defines it. The engines that keep operands on a stack ask this to know
    /// where a value has to be dropped.
    pub fn leaves_value(&self) -> (b: bool)
        ensures
            b == self.returns_value(),
        decreases *self,
    {
        match self {
            Expr::Litr(_) | Expr::Arg(_) | Expr::Get(_) | Expr::Add(_, _) => true,
            Expr::Let(_, body) => body.leaves_value(),
            Expr::Assign(_, _) | Expr::While(_, _) => false,
            Expr::Then(_, b) => b.leaves_value(),
            Expr::Throw(_) => false,
            Expr::Catch(body) => body.leaves_value(),
        }
    }
}

/// The outcome of `e` on `args`, started with `locals` (innermost last), or
/// `None` where some loop nest in it iterates more than `fuel` deep.
pub open spec fn eval(e: Expr, args: Seq<i64>, locals: Seq<i64>, fuel: nat) -> Option<Outcome>
    decreases fuel, e,
{
    match e {
        Expr::Litr(x) => Some(Outcome::Value(x, locals)),
        Expr::Arg(i) => Some(Outcome::Value(args[i as int], locals)),
        Expr::Get(k) => Some(Outcome::Value(locals[locals.len() - k - 1], locals)),
        Expr::Add(x, y) => match eval(*x, args, locals, fuel) {
            Some(Outcome::Value(a, l1)) => match eval(*y, args, l1, fuel) {
                Some(Outcome::Value(b, l2)) => Some(Outcome::Value(a.wrapping_add(b), l2)),
                other => other,
            },
            other => other,
        },
        Expr::Let(rhs, body) => match eval(*rhs, args, locals, fuel) {
            Some(Outcome::Value(v, l1)) => match eval(*body, args, l1.push(v), fuel) {
                Some(Outcome::Value(r, l2)) => Some(Outcome::Value(r, l2.drop_last())),
                other => other,
            },
            other => other,
        },
        Expr::Assign(k, rhs) => match eval(*rhs, args, locals, fuel) {
            Some(Outcome::Value(v, l1)) => Some(
                Outcome::Value(UNIT, l1.update(l1.len() - k - 1, v)),
            ),
            other => other,
        },
        Expr::While(pred, body) => if fuel == 0 {
            None
        } else {
            match eval(*pred, args, locals, (fuel - 1) as nat) {
                Some(Outcome::Value(c, l1)) => if c > 0 {
                    match eval(*body, args, l1, (fuel - 1) as nat) {
                        Some(Outcome::Value(_, l2)) => eval(e, args, l2, (fuel - 1) as nat),
                        other => other,
                    }
                } else {
                    Some(Outcome::Value(UNIT, l1))
                },
                other => other,
            }
        },
        Expr::Then(a, b) => match eval(*a, args, locals, fuel) {
            Some(Outcome::Value(_, l1)) => eval(*b, args, l1, fuel),
            other => other,
        },
        Expr::Throw(x) => match eval(*x, args, locals, fuel) {
            Some(Outcome::Value(v, _)) => Some(Outcome::Thrown(v)),
            other => other,
        },
        Expr::Catch(body) => match eval(*body, args, locals, fuel) {
            Some(Outcome::Thrown(p)) => Some(Outcome::Caught(p)),
            other => other,
        },
    }
}

/// The run of `e` on `args`, started with no locals, ends as `exit` says.
pub open spec fn ends(e: Expr, args: Seq<i64>, exit: Exit) -> bool {
    exists|fuel: nat|
        (#[trigger] eval(e, args, Seq::empty(), fuel)) matches Some(o) && o.exit() == exit
}

/// The run of `e` on `args`, started with no locals, ends with the value `v`.
pub open spec fn yields(e: Expr, args: Seq<i64>, v: i64) -> bool {
    ends(e, args, Exit::Value(v))
}

/// `e` is closed, reads no argument that `args` lacks, and its run on
/// `args` ends with a value.
pub open spec fn evaluates(e: Expr, args: Seq<i64>) -> bool {
    &&& e.scoped(0)
    &&& e.args_within(args.len())
    &&& exists|v: i64| yields(e, args, v)
}

/// More fuel never changes an outcome that less fuel already reached.
pub proof fn eval_monotonic(e: Expr, args: Seq<i64>, locals: Seq<i64>, fuel: nat, more: nat)
    requires
        eval(e, args, locals, fuel) is Some,
        fuel <= more,
    ensures
        eval(e, args, locals, more) == eval(e, args, locals, fuel),
    decreases fuel, e,
{
    match e {
        Expr::Litr(_) => {},
        Expr::Arg(_) => {},
        Expr::Get(_) => {},
        Expr::Add(x, y) => {
            eval_monotonic(*x, args, locals, fuel, more);
            if let Some(Outcome::Value(_, l1)) = eval(*x, args, locals, fuel) {
                eval_monotonic(*y, args, l1, fuel, more);
            }
        },
        Expr::Let(rhs, body) => {
            eval_monotonic(*rhs, args, locals, fuel, more);
            if let Some(Outcome::Value(v, l1)) = eval(*rhs, args, locals, fuel) {
                eval_monotonic(*body, args, l1.push(v), fuel, more);
            }
        },
        Expr::Assign(_, rhs) => {
            eval_monotonic(*rhs, args, locals, fuel, more);
        },
        Expr::While(pred, body) => {
            let f = (fuel - 1) as nat;
            let m = (more - 1) as nat;
            eval_monotonic(*pred, args, locals, f, m);
            if let Some(Outcome::Value(c, l1)) = eval(*pred, args, locals, f) {
                if c > 0 {
                    eval_monotonic(*body, args, l1, f, m);
                    if let Some(Outcome::Value(_, l2)) = eval(*body, args, l1, f) {
                        eval_monotonic(e, args, l2, f, m);
                    }
                }
            }
        },
        Expr::Then(a, b) => {
            eval_monotonic(*a, args, locals, fuel, more);
            if let Some(Outcome::Value(_, l1)) = eval(*a, args, locals, fuel) {
                eval_monotonic(*b, args, l1, fuel, more);
            }
        },
        Expr::Throw(x) => {
            eval_monotonic(*x, args, locals, fuel, more);
        },
        Expr::Catch(body) => {
            eval_monotonic(*body, args, locals, fuel, more);
        },
    }
}

/// A run has one end: two outcomes of the same tree on the same arguments
/// and locals are equal, whatever fuel reached them.
pub proof fn eval_deterministic(e: Expr, args: Seq<i64>, locals: Seq<i64>, f1: nat, f2: nat)
    requires
        eval(e, args, locals, f1) is Some,
        eval(e, args, locals, f2) is Some,
    ensures
        eval(e, args, locals, f1) == eval(e, args, locals, f2),
{
    if f1 <= f2 {
        eval_monotonic(e, args, locals, f1, f2);
    } else {
        eval_monotonic(e, args, locals, f2, f1);
    }
}

/// A run ends in one way only.
pub proof fn ends_unique(e: Expr, args: Seq<i64>, x: Exit, y: Exit)
    requires
        ends(e, args, x),
        ends(e, args, y),
    ensures
        x == y,
{
    let f1 = choose|fuel: nat|
        (#[trigger] eval(e, args, Seq::empty(), fuel)) matches Some(o) && o.exit() == x;
    let f2 = choose|fuel: nat|
        (#[trigger] eval(e, args, Seq::empty(), fuel)) matches Some(o) && o.exit() == y;
    eval_deterministic(e, args, Seq::empty(), f1, f2);
}

/// Some amount of fuel that lets the run of `e` on `args` reach its value.
pub proof fn fuel_for_value(e: Expr, args: Seq<i64>) -> (fuel: nat)
    requires
        exists|v: i64| yields(e, args, v),
    ensures
        eval(e, args, Seq::empty(), fuel) matches Some(o) && o is Value,
{
    let v = choose|v: i64| yields(e, args, v);
    let exit = Exit::Value(v);
    choose|fuel: nat|
        (#[trigger] eval(e, args, Seq::empty(), fuel)) matches Some(o) && o.exit() == exit
}

/// Evaluation to a value leaves as many locals as it found.
pub proof fn eval_keeps_depth(e: Expr, args: Seq<i64>, locals: Seq<i64>, fuel: nat)
    requires
        e.scoped(locals.len()),
    ensures
        eval(e, args, locals, fuel) matches Some(Outcome::Value(_, l)) ==> l.len() == locals.len(),
    decreases fuel, e,
{
    match e {
        Expr::Litr(_) => {},
        Expr::Arg(_) => {},
        Expr::Get(_) => {},
        Expr::Add(x, y) => {
            eval_keeps_depth(*x, args, locals, fuel);
            if let Some(Outcome::Value(_, l1)) = eval(*x, args, locals, fuel) {
                eval_keeps_depth(*y, args, l1, fuel);
            }
        },
        Expr::Let(rhs, body) => {
            eval_keeps_depth(*rhs, args, locals, fuel);
            if let Some(Outcome::Value(v, l1)) = eval(*rhs, args, locals, fuel) {
                eval_keeps_depth(*body, args, l1.push(v), fuel);
            }
        },
        Expr::Assign(_, rhs) => {
            eval_keeps_depth(*rhs, args, locals, fuel);
        },
        Expr::While(pred, body) => {
            if fuel > 0 {
                let f = (fuel - 1) as nat;
                eval_keeps_depth(*pred, args, locals, f);
                if let Some(Outcome::Value(c, l1)) = eval(*pred, args, locals, f) {
                    if c > 0 {
                        eval_keeps_depth(*body, args, l1, f);
                        if let Some(Outcome::Value(_, l2)) = eval(*body, args, l1, f) {
                            eval_keeps_depth(e, args, l2, f);
                        }
                    }
                }
            }
        },
        Expr::Then(a, b) => {
            eval_keeps_depth(*a, args, locals, fuel);
            if let Some(Outcome::Value(_, l1)) = eval(*a, args, locals, fuel) {
                eval_keeps_depth(*b, args, l1, fuel);
            }
        },
        Expr::Throw(x) => {
            eval_keeps_depth(*x, args, locals, fuel);
        },
        Expr::Catch(body) => {
            eval_keeps_depth(*body, args, locals, fuel);
        },
    }
}

/// A tree that leaves no value behind evaluates to unit.
pub proof fn unit_where_nothing_left(e: Expr, args: Seq<i64>, locals: Seq<i64>, fuel: nat)
    requires
        e.is_base(),
        !e.returns_value(),
    ensures
        eval(e, args, locals, fuel) matches Some(Outcome::Value(v, _)) ==> v == UNIT,
    decreases fuel, e,
{
    match e {
        Expr::Let(rhs, body) => {
            if let Some(Outcome::Value(v, l1)) = eval(*rhs, args, locals, fuel) {
                unit_where_nothing_left(*body, args, l1.push(v), fuel);
            }
        },
        Expr::While(pred, body) => {
            if fuel > 0 {
                let f = (fuel - 1) as nat;
                if let Some(Outcome::Value(c, l1)) = eval(*pred, args, locals, f) {
                    if c > 0 {
                        if let Some(Outcome::Value(_, l2)) = eval(*body, args, l1, f) {
                            unit_where_nothing_left(e, args, l2, f);
                        }
                    }
                }
            }
        },
        Expr::Then(a, b) => {
            if let Some(Outcome::Value(_, l1)) = eval(*a, args, locals, fuel) {
                unit_where_nothing_left(*b, args, l1, fuel);
            }
        },
        _ => {},
    }
}

/// A tree without `Throw` and `Catch` can only end with a value.
pub proof fn base_never_throws(e: Expr, args: Seq<i64>, locals: Seq<i64>, fuel: nat)
    requires
        e.is_base(),
    ensures
        eval(e, args, locals, fuel) matches Some(o) ==> o is Value,
    decreases fuel, e,
{
    match e {
        Expr::Litr(_) => {},
        Expr::Arg(_) => {},
        Expr::Get(_) => {},
        Expr::Add(x, y) => {
            base_never_throws(*x, args, locals, fuel);
            if let Some(Outcome::Value(_, l1)) = eval(*x, args, locals, fuel) {
                base_never_throws(*y, args, l1, fuel);
            }
        },
        Expr::Let(rhs, body) => {
            base_never_throws(*rhs, args, locals, fuel);
            if let Some(Outcome::Value(v, l1)) = eval(*rhs, args, locals, fuel) {
                base_never_throws(*body, args, l1.push(v), fuel);
            }
        },
        Expr::Assign(_, rhs) => {
            base_never_throws(*rhs, args, locals, fuel);
        },
        Expr::While(pred, body) => {
            if fuel > 0 {
                let f = (fuel - 1) as nat;
                base_never_throws(*pred, args, locals, f);
                if let Some(Outcome::Value(c, l1)) = eval(*pred, args, locals, f) {
                    if c > 0 {
                        base_never_throws(*body, args, l1, f);
                        if let Some(Outcome::Value(_, l2)) = eval(*body, args, l1, f) {
                            base_never_throws(e, args, l2, f);
                        }
                    }
                }
            }
        },
        Expr::Then(a, b) => {
            base_never_throws(*a, args, locals, fuel);
            if let Some(Outcome::Value(_, l1)) = eval(*a, args, locals, fuel) {
                base_never_throws(*b, args, l1, fuel);
            }
        },
        Expr::Throw(_) => {},
        Expr::Catch(_) => {},
    }
}

} // verus!
