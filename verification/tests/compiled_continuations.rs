use vm_perf::closure_continuations::{Func, MaybeCont};
use vm_perf::{ClosureContinuations, Expr, Vm};

fn litr(x: i64) -> Box<Expr> {
    Box::new(Expr::Litr(x))
}

fn arg(i: usize) -> Box<Expr> {
    Box::new(Expr::Arg(i))
}

fn get(k: usize) -> Box<Expr> {
    Box::new(Expr::Get(k))
}

fn add(x: Box<Expr>, y: Box<Expr>) -> Box<Expr> {
    Box::new(Expr::Add(x, y))
}

fn bind(rhs: Box<Expr>, body: Box<Expr>) -> Box<Expr> {
    Box::new(Expr::Let(rhs, body))
}

fn then(a: Box<Expr>, b: Box<Expr>) -> Box<Expr> {
    Box::new(Expr::Then(a, b))
}

fn next(f: Func) -> MaybeCont {
    MaybeCont::Next(Box::new(f))
}

#[test]
fn a_sequence_calls_its_second_part_from_the_first() {
    assert_eq!(
        ClosureContinuations::compile(&then(litr(1), litr(2))),
        Func::Litr(1, next(Func::Then(Box::new(Func::Litr(2, MaybeCont::Done)))))
    );
}

#[test]
fn a_let_with_nothing_after_it_leaves_its_local_where_it_is() {
    assert_eq!(
        ClosureContinuations::compile(&bind(litr(5), get(0))),
        Func::Litr(5, next(Func::Bind(Box::new(Func::Get0(MaybeCont::Done)))))
    );
}

#[test]
fn a_let_with_something_after_it_drops_its_local_first() {
    let after = next(Func::Unbind(Box::new(Func::AddOne(MaybeCont::Done))));
    assert_eq!(
        ClosureContinuations::compile(&add(bind(litr(5), get(0)), litr(1))),
        Func::Litr(5, next(Func::Bind(Box::new(Func::Get0(after)))))
    );
}

#[test]
fn sums_with_constants_and_the_second_argument_are_one_unit() {
    assert_eq!(
        ClosureContinuations::compile(&add(arg(0), litr(1))),
        Func::Arg0(next(Func::AddOne(MaybeCont::Done)))
    );
    assert_eq!(
        ClosureContinuations::compile(&add(arg(1), litr(-1))),
        Func::Arg1(next(Func::SubOne(MaybeCont::Done)))
    );
    assert_eq!(
        ClosureContinuations::compile(&add(arg(2), litr(9))),
        Func::Arg(2, next(Func::AddLitr(9, MaybeCont::Done)))
    );
    assert_eq!(
        ClosureContinuations::compile(&add(litr(3), arg(1))),
        Func::Litr(3, next(Func::AddArg1(MaybeCont::Done)))
    );
}

#[test]
fn the_right_operand_of_a_general_sum_is_a_program_of_its_own() {
    let right = Func::Get0(MaybeCont::Done);
    assert_eq!(
        ClosureContinuations::compile(&add(arg(0), get(0))),
        Func::Arg0(next(Func::AddEval(Box::new(right), MaybeCont::Done)))
    );
}

#[test]
fn a_throw_is_the_continuation_of_its_payload() {
    assert_eq!(
        ClosureContinuations::compile(&Expr::Catch(Box::new(Expr::Throw(litr(3))))),
        Func::Catch(Box::new(Func::Litr(3, next(Func::Throw))), MaybeCont::Done)
    );
}
