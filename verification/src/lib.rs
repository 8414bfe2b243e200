//! Execution engines for a small imperative expression language.
//!
//! One language of 64-bit integers, positional arguments, lexically scoped
//! locals, addition, assignment, loops and sequencing is compiled by several
//! strategies and run against a slice of arguments. What a tree means is
//! fixed once, by [`semantics::eval`]; every engine is proved to return
//! exactly that.

use vstd::prelude::*;

pub mod semantics;
pub mod bytecode;
pub mod bytecode_closures;
pub mod closure_continuations;
pub mod closure_stack_continuations;
pub mod closures;
pub mod frame;
pub mod pieces;
pub mod register_closures;
pub mod stack;
pub mod stack_closures;
pub mod tape_closures;
pub mod tape_continuations;
pub mod walker;

pub use crate::semantics::{Exit, Outcome};
pub use crate::bytecode::{Bytecode, Op};
pub use crate::bytecode_closures::BytecodeClosures;
pub use crate::closure_continuations::ClosureContinuations;
pub use crate::closure_stack_continuations::ClosureStackContinuations;
pub use crate::closures::Closures;
pub use crate::register_closures::RegisterClosures;
pub use crate::stack_closures::StackClosures;
pub use crate::tape_closures::TapeClosures;
pub use crate::tape_continuations::TapeContinuations;
pub use crate::walker::Walker;

verus! {

/// A tree of the language. Locals have no names: `Get(k)` and `Assign(k, _)`
/// address the binding `k` steps out from the innermost enclosing `Let`.
#[derive(Debug, PartialEq, Eq)]
pub enum Expr {
    /// An integer constant.
    Litr(i64),
    /// The argument at this index.
    Arg(usize),
    /// The local at this lexical offset; 0 is the innermost binding.
    Get(usize),
    /// The wrapping sum of both operands, the left one evaluated first.
    Add(Box<Expr>, Box<Expr>),
    /// Binds the first operand's value as the new innermost local for the
    /// second operand, whose value is the result.
    Let(Box<Expr>, Box<Expr>),
    /// Overwrites the local at this lexical offset; the result is unit.
    Assign(usize, Box<Expr>),
    /// Runs the second operand for as long as the first is positive; the
    /// result is unit.
    While(Box<Expr>, Box<Expr>),
    /// Runs the first operand for its effects, then the second for its value.
    Then(Box<Expr>, Box<Expr>),
    /// Raises the operand's value as a signal that leaves every enclosing
    /// construct up to the nearest `Catch`.
    Throw(Box<Expr>),
    /// Runs the operand; a signal raised inside stops the run here.
    Catch(Box<Expr>),
}

/// The value that stands for "no result".
pub const UNIT: i64 = 0;

/// An execution engine: a way to compile a tree and to run what was compiled.
pub trait Vm {
    /// What `compile` produces. It is never changed by running it.
    type Program<'a>;

    /// The trees this engine compiles.
    spec fn supports(expr: Expr) -> bool;

    /// `prog` is what `compile` gives for `expr`.
    spec fn compiled(expr: Expr, prog: &Self::Program<'_>) -> bool;

    /// Compiles a closed tree that the engine supports. The program depends
    /// on the tree alone.
    fn compile<'a>(expr: &'a Expr) -> (prog: Self::Program<'a>)
        requires
            expr.scoped(0),
            Self::supports(*expr),
        ensures
            Self::compiled(*expr, &prog),
    ;

    /// Runs a program that was compiled from a tree that evaluates to a
    /// value on `args`, and returns that value. Where the tree loops for
    /// ever, so does the run; nothing is promised of it.
    fn execute(prog: &Self::Program<'_>, args: &[i64]) -> (res: i64)
        requires
            exists|expr: Expr|
                #[trigger] Self::compiled(expr, prog) && Self::supports(expr)
                    && semantics::evaluates(expr, args@),
        ensures
            forall|expr: Expr|
                #[trigger] Self::compiled(expr, prog) && Self::supports(expr)
                    && semantics::evaluates(expr, args@) ==> semantics::yields(expr, args@, res),
    ;
}

/// `prog` is what engine `V` compiled from `expr`, a tree that `V` supports
/// and that evaluates to a value on `args`: the condition under which
/// `V::execute` may be called.
pub open spec fn runs<V: Vm>(expr: Expr, prog: &V::Program<'_>, args: Seq<i64>) -> bool {
    V::compiled(expr, prog) && V::supports(expr) && semantics::evaluates(expr, args)
}

/// `res` is the value of every tree that `prog` can be run for: what
/// `V::execute` owes.
pub open spec fn returned<V: Vm>(prog: &V::Program<'_>, args: Seq<i64>, res: i64) -> bool {
    forall|expr: Expr|
        #[trigger] V::compiled(expr, prog) && V::supports(expr) && semantics::evaluates(expr, args)
            ==> semantics::yields(expr, args, res)
}

/// Any two engines agree: on a tree that both compile, and on arguments on
/// which the tree evaluates to a value, whatever the one returns the other
/// returns too. With the walker as one of the two, every engine returns what
/// the walker returns.
pub proof fn engines_agree<V: Vm, W: Vm>(
    expr: Expr,
    args: Seq<i64>,
    prog_v: &V::Program<'_>,
    res_v: i64,
    prog_w: &W::Program<'_>,
    res_w: i64,
)
    requires
        runs::<V>(expr, prog_v, args),
        returned::<V>(prog_v, args, res_v),
        runs::<W>(expr, prog_w, args),
        returned::<W>(prog_w, args, res_w),
    ensures
        res_v == res_w,
{
    assert(semantics::yields(expr, args, res_v));
    assert(semantics::yields(expr, args, res_w));
    semantics::ends_unique(expr, args, Exit::Value(res_v), Exit::Value(res_w));
}

/// Compiling is repeatable: two programs that one engine compiled from one
/// tree return the same value on the same arguments.
pub proof fn compile_is_repeatable<V: Vm>(
    expr: Expr,
    args: Seq<i64>,
    first: &V::Program<'_>,
    res_first: i64,
    second: &V::Program<'_>,
    res_second: i64,
)
    requires
        runs::<V>(expr, first, args),
        returned::<V>(first, args, res_first),
        runs::<V>(expr, second, args),
        returned::<V>(second, args, res_second),
    ensures
        res_first == res_second,
{
    assert(semantics::yields(expr, args, res_first));
    assert(semantics::yields(expr, args, res_second));
    semantics::ends_unique(expr, args, Exit::Value(res_first), Exit::Value(res_second));
}

/// Executing is repeatable: two runs of one program on the same arguments
/// return the same value.
pub proof fn execute_is_repeatable<V: Vm>(
    prog: &V::Program<'_>,
    args: Seq<i64>,
    res_first: i64,
    res_second: i64,
)
    requires
        exists|expr: Expr| runs::<V>(expr, prog, args),
        returned::<V>(prog, args, res_first),
        returned::<V>(prog, args, res_second),
    ensures
        res_first == res_second,
{
    let expr = choose|expr: Expr| runs::<V>(expr, prog, args);
    assert(semantics::yields(expr, args, res_first));
    assert(semantics::yields(expr, args, res_second));
    semantics::ends_unique(expr, args, Exit::Value(res_first), Exit::Value(res_second));
}

} // verus!
