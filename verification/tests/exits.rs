use vm_perf::{ClosureContinuations, Exit, Expr, Vm};

fn litr(x: i64) -> Box<Expr> {
    Box::new(Expr::Litr(x))
}

fn arg(i: usize) -> Box<Expr> {
    Box::new(Expr::Arg(i))
}

fn get(k: usize) -> Box<Expr> {
    Box::new(Expr::Get(k))
}

fn add(x: Box<Expr>, y: Box<Expr>) -> Box<Expr> {
    Box::new(Expr::Add(x, y))
}

fn bind(rhs: Box<Expr>, body: Box<Expr>) -> Box<Expr> {
    Box::new(Expr::Let(rhs, body))
}

fn assign(k: usize, rhs: Box<Expr>) -> Box<Expr> {
    Box::new(Expr::Assign(k, rhs))
}

fn repeat(pred: Box<Expr>, body: Box<Expr>) -> Box<Expr> {
    Box::new(Expr::While(pred, body))
}

fn then(a: Box<Expr>, b: Box<Expr>) -> Box<Expr> {
    Box::new(Expr::Then(a, b))
}

fn throw(x: Box<Expr>) -> Box<Expr> {
    Box::new(Expr::Throw(x))
}

fn catch(body: Box<Expr>) -> Box<Expr> {
    Box::new(Expr::Catch(body))
}

fn exit_of(expr: &Expr, args: &[i64]) -> Exit {
    let prog = ClosureContinuations::compile(expr);
    ClosureContinuations::run_to_exit(&prog, args)
}

#[test]
fn a_tree_without_throw_exits_with_its_value() {
    assert_eq!(exit_of(&add(litr(2), litr(40)), &[]), Exit::Value(42));
}

#[test]
fn a_throw_without_catch_ends_as_thrown() {
    assert_eq!(exit_of(&throw(litr(7)), &[]), Exit::Thrown(7));
}

#[test]
fn a_throw_leaves_every_construct_around_it() {
    // let x = 1; (x = (throw x + 9); 5)
    let expr = bind(litr(1), then(assign(0, throw(add(get(0), litr(9)))), litr(5)));
    assert_eq!(exit_of(&expr, &[]), Exit::Thrown(10));
}

#[test]
fn a_throw_in_the_right_operand_of_a_sum_is_passed_on() {
    let expr = add(arg(0), then(throw(arg(1)), litr(0)));
    assert_eq!(exit_of(&expr, &[3, 4]), Exit::Thrown(4));
}

#[test]
fn a_throw_in_the_left_operand_of_a_sum_skips_the_right_one() {
    let expr = add(throw(litr(1)), throw(litr(2)));
    assert_eq!(exit_of(&expr, &[]), Exit::Thrown(1));
}

#[test]
fn a_throw_in_a_loop_test_ends_the_loop() {
    let expr = repeat(throw(litr(5)), litr(0));
    assert_eq!(exit_of(&expr, &[]), Exit::Thrown(5));
}

#[test]
fn the_payload_is_the_value_of_the_thrown_tree() {
    let expr = catch(throw(add(arg(0), arg(1))));
    assert_eq!(exit_of(&expr, &[40, 2]), Exit::Caught(42));
}

#[test]
fn a_catch_without_a_throw_hands_on_the_value_of_its_body() {
    let expr = add(catch(litr(1)), litr(2));
    assert_eq!(exit_of(&expr, &[]), Exit::Value(3));
    let prog = ClosureContinuations::compile(&expr);
    assert_eq!(ClosureContinuations::execute(&prog, &[]), 3);
}

#[test]
fn the_innermost_catch_stops_the_throw() {
    let expr = catch(then(catch(throw(litr(1))), throw(litr(2))));
    assert_eq!(exit_of(&expr, &[]), Exit::Caught(1));
}

#[test]
fn a_throw_behind_a_finished_catch_is_not_caught_by_it() {
    let expr = then(catch(litr(0)), throw(litr(9)));
    assert_eq!(exit_of(&expr, &[]), Exit::Thrown(9));
}

#[test]
fn a_throw_inside_a_let_inside_a_catch_is_caught() {
    // catch { let x = args[0]; while x { throw x + 1 } }
    let expr = catch(bind(arg(0), repeat(get(0), throw(add(get(0), litr(1))))));
    assert_eq!(exit_of(&expr, &[8]), Exit::Caught(9));
    assert_eq!(exit_of(&expr, &[0]), Exit::Value(0));
}

#[test]
fn locals_are_intact_after_a_catch_that_saw_no_throw() {
    // let x = 3; (catch { let y = 4; y }; x)
    let expr = bind(litr(3), then(catch(bind(litr(4), get(0))), get(0)));
    assert_eq!(exit_of(&expr, &[]), Exit::Value(3));
}
