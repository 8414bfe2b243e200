//! The tree walker: evaluation by recursion over the tree itself.

use vstd::prelude::*;
use crate::semantics::{eval, evaluates, Outcome};
use crate::{Expr, Vm, UNIT};

verus! {

/// The engine that compiles nothing and evaluates the tree directly. The
/// other engines are measured against it.
pub struct Walker;

/// Evaluates `expr` with `locals` as the bindings around it.
fn execute_inner(
    expr: &Expr,
    args: &[i64],
    locals: &mut Vec<i64>,
    Ghost(fuel): Ghost<nat>,
) -> (res: i64)
    requires
        expr.is_base(),
        expr.scoped(old(locals)@.len()),
        expr.args_within(args@.len()),
        eval(*expr, args@, old(locals)@, fuel) is Some,
    ensures
        eval(*expr, args@, old(locals)@, fuel) == Some(Outcome::Value(res, final(locals)@)),
        final(locals)@.len() == old(locals)@.len(),
    decreases fuel, *expr,
{
    proof {
        crate::semantics::base_never_throws(*expr, args@, locals@, fuel);
        crate::semantics::eval_keeps_depth(*expr, args@, locals@, fuel);
    }
    match expr {
        Expr::Litr(x) => *x,
        Expr::Arg(idx) => args[*idx],
        Expr::Get(local) => locals[locals.len() - *local - 1],
        Expr::Add(x, y) => {
            let a = execute_inner(x, args, locals, Ghost(fuel));
            let b = execute_inner(y, args, locals, Ghost(fuel));
            a.wrapping_add(b)
        },
        Expr::Let(rhs, then) => {
            let rhs = execute_inner(rhs, args, locals, Ghost(fuel));
            locals.push(rhs);
            let res = execute_inner(then, args, locals, Ghost(fuel));
            locals.pop();
            res
        },
        Expr::Assign(local, rhs) => {
            let rhs = execute_inner(rhs, args, locals, Ghost(fuel));
            let local_offs = locals.len() - *local - 1;
            locals.set(local_offs, rhs);
            UNIT
        },
        Expr::While(pred, body) => {
            let ghost mut left = fuel;
            loop
                invariant_except_break
                    eval(*expr, args@, locals@, left) is Some,
                    eval(*expr, args@, locals@, left) == eval(*expr, args@, old(locals)@, fuel),
                invariant
                    expr.is_base(),
                    *expr == Expr::While(*pred, *body),
                    expr.scoped(locals@.len()),
                    expr.args_within(args@.len()),
                    locals@.len() == old(locals)@.len(),
                    left <= fuel,
                ensures
                    eval(*expr, args@, old(locals)@, fuel) == Some(Outcome::Value(UNIT, locals@)),
                decreases left,
            {
                let c = execute_inner(pred, args, locals, Ghost((left - 1) as nat));
                if c > 0 {
                    execute_inner(body, args, locals, Ghost((left - 1) as nat));
                    proof {
                        left = (left - 1) as nat;
                    }
                } else {
                    break;
                }
            }
            UNIT
        },
        Expr::Then(a, b) => {
            execute_inner(a, args, locals, Ghost(fuel));
            execute_inner(b, args, locals, Ghost(fuel))
        },
        Expr::Throw(_) => UNIT,
        Expr::Catch(_) => UNIT,
    }
}

impl Vm for Walker {
    type Program<'a> = &'a Expr;

    /// Trees of the base language.
    open spec fn supports(expr: Expr) -> bool {
        expr.is_base()
    }

    /// The program is the tree.
    open spec fn compiled(expr: Expr, prog: &&Expr) -> bool {
        **prog == expr
    }

    fn compile<'a>(expr: &'a Expr) -> (prog: &'a Expr) {
        expr
    }

    fn execute(prog: &&Expr, args: &[i64]) -> (res: i64) {
        let ghost fuel: nat;
        proof {
            let expr = choose|expr: Expr|
                Walker::compiled(expr, prog) && Walker::supports(expr) && evaluates(expr, args@);
            fuel = crate::semantics::fuel_for_value(expr, args@);
        }
        let mut locals: Vec<i64> = Vec::new();
        let res = execute_inner(prog, args, &mut locals, Ghost(fuel));
        proof {
            let exit = crate::Exit::Value(res);
            assert(eval(**prog, args@, Seq::empty(), fuel) matches Some(o) && o.exit() == exit);
        }
        res
    }
}

} // verus!
