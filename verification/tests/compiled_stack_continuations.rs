use vm_perf::closure_stack_continuations::{Func, MaybeCont};
use vm_perf::{ClosureStackContinuations, Expr, Vm};

fn litr(x: i64) -> Box<Expr> {
    Box::new(Expr::Litr(x))
}

fn arg(i: usize) -> Box<Expr> {
    Box::new(Expr::Arg(i))
}

fn get(k: usize) -> Box<Expr> {
    Box::new(Expr::Get(k))
}

fn add(x: Box<Expr>, y: Box<Expr>) -> Box<Expr> {
    Box::new(Expr::Add(x, y))
}

fn bind(rhs: Box<Expr>, body: Box<Expr>) -> Box<Expr> {
    Box::new(Expr::Let(rhs, body))
}

fn then(a: Box<Expr>, b: Box<Expr>) -> Box<Expr> {
    Box::new(Expr::Then(a, b))
}

fn next(f: Func) -> MaybeCont {
    MaybeCont::Next(Box::new(f))
}

#[test]
fn both_operands_of_a_sum_are_compiled_in_line() {
    assert_eq!(
        ClosureStackContinuations::compile(&add(arg(0), get(0))),
        Func::Arg0(next(Func::Get0(next(Func::AddTop(MaybeCont::Done)))))
    );
    assert_eq!(
        ClosureStackContinuations::compile(&add(arg(0), litr(-1))),
        Func::Arg0(next(Func::SubOne(MaybeCont::Done)))
    );
}

#[test]
fn a_unit_knows_whether_a_value_was_left_for_it_to_drop() {
    // (1; while args[0] { local 0 = 2 }): the first part leaves a value, the
    // loop body does not.
    let body = Box::new(Expr::Assign(0, litr(2)));
    let expr = then(litr(1), Box::new(Expr::While(arg(0), body)));
    let test = Func::Arg0(MaybeCont::Done);
    let store = Func::Litr(2, next(Func::Store0(MaybeCont::Done)));
    let repeat = Func::While(Box::new(test), Box::new(store), false, MaybeCont::Done);
    assert_eq!(
        ClosureStackContinuations::compile(&expr),
        Func::Litr(1, next(Func::Then(true, Box::new(repeat))))
    );
}

#[test]
fn a_let_pops_the_bound_value_and_drops_the_local_when_more_follows() {
    let after = next(Func::Unbind(Box::new(Func::AddOne(MaybeCont::Done))));
    assert_eq!(
        ClosureStackContinuations::compile(&add(bind(litr(5), get(0)), litr(1))),
        Func::Litr(5, next(Func::Bind(Box::new(Func::Get0(after)))))
    );
}

#[test]
fn a_unit_pushes_unit_where_the_value_of_an_assignment_is_used() {
    // (local 0 = 2) + 1, inside a binding
    let body = add(Box::new(Expr::Assign(0, litr(2))), litr(1));
    let store = Func::Store0(next(Func::Litr(0, next(Func::AddOne(next(Func::Unbind(
        Box::new(Func::AddOne(MaybeCont::Done)),
    )))))));
    assert_eq!(
        ClosureStackContinuations::compile(&add(bind(litr(7), body), litr(1))),
        Func::Litr(7, next(Func::Bind(Box::new(Func::Litr(2, next(store))))))
    );
}
