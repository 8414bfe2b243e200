use vm_perf::{
    Bytecode, BytecodeClosures, ClosureContinuations, ClosureStackContinuations, Closures, Exit,
    Expr, RegisterClosures, StackClosures, TapeClosures, TapeContinuations, Vm, Walker,
};

fn litr(x: i64) -> Box<Expr> {
    Box::new(Expr::Litr(x))
}

fn arg(i: usize) -> Box<Expr> {
    Box::new(Expr::Arg(i))
}

fn get(k: usize) -> Box<Expr> {
    Box::new(Expr::Get(k))
}

fn add(x: Box<Expr>, y: Box<Expr>) -> Box<Expr> {
    Box::new(Expr::Add(x, y))
}

fn bind(rhs: Box<Expr>, body: Box<Expr>) -> Box<Expr> {
    Box::new(Expr::Let(rhs, body))
}

fn assign(k: usize, rhs: Box<Expr>) -> Box<Expr> {
    Box::new(Expr::Assign(k, rhs))
}

fn repeat(pred: Box<Expr>, body: Box<Expr>) -> Box<Expr> {
    Box::new(Expr::While(pred, body))
}

fn then(a: Box<Expr>, b: Box<Expr>) -> Box<Expr> {
    Box::new(Expr::Then(a, b))
}

// let total = 0; let count = args[0];
// while count > 0 { total = total + args[1]; count = count + (-1) }; total
fn accumulation() -> Expr {
    *bind(
        litr(0),
        then(
            bind(
                arg(0),
                repeat(
                    get(0),
                    then(
                        assign(1, add(get(1), arg(1))),
                        assign(0, add(get(0), litr(-1))),
                    ),
                ),
            ),
            get(0),
        ),
    )
}

// let x = 5; let x = x + 1; x
fn shadowing() -> Expr {
    *bind(litr(5), bind(add(get(0), litr(1)), get(0)))
}

fn sequence() -> Expr {
    *then(litr(1), litr(2))
}

// 10 + (1; 2): a value that was not dropped would be added in place of 10.
fn sum_over_sequence() -> Expr {
    *add(litr(10), then(litr(1), litr(2)))
}

// let x = 7; ((1; 2); x): a value that was not dropped must not shift x.
fn local_after_sequence() -> Expr {
    *bind(litr(7), then(then(litr(1), litr(2)), get(0)))
}

fn run<V: Vm>(expr: &Expr, args: &[i64]) -> i64 {
    let prog = V::compile(expr);
    V::execute(&prog, args)
}

#[test]
fn accumulation_loop_walker() {
    assert_eq!(run::<Walker>(&accumulation(), &[10000, 13]), 130000);
}

#[test]
fn accumulation_loop_bytecode() {
    assert_eq!(run::<Bytecode>(&accumulation(), &[10000, 13]), 130000);
}

#[test]
fn accumulation_loop_closures() {
    assert_eq!(run::<Closures>(&accumulation(), &[10000, 13]), 130000);
}

#[test]
fn accumulation_loop_stack_closures() {
    assert_eq!(run::<StackClosures>(&accumulation(), &[10000, 13]), 130000);
}

#[test]
fn accumulation_loop_tape_closures() {
    assert_eq!(run::<TapeClosures>(&accumulation(), &[10000, 13]), 130000);
}

#[test]
fn accumulation_loop_register_closures() {
    assert_eq!(run::<RegisterClosures>(&accumulation(), &[10000, 13]), 130000);
}

#[test]
fn accumulation_loop_bytecode_closures() {
    assert_eq!(run::<BytecodeClosures>(&accumulation(), &[10000, 13]), 130000);
}

#[test]
fn accumulation_loop_tape_continuations() {
    assert_eq!(run::<TapeContinuations>(&accumulation(), &[10000, 13]), 130000);
}

#[test]
fn accumulation_loop_closure_continuations() {
    assert_eq!(run::<ClosureContinuations>(&accumulation(), &[10000, 13]), 130000);
}

#[test]
fn accumulation_loop_closure_stack_continuations() {
    assert_eq!(run::<ClosureStackContinuations>(&accumulation(), &[10000, 13]), 130000);
}

#[test]
fn empty_loop_walker() {
    assert_eq!(run::<Walker>(&accumulation(), &[0, 99]), 0);
}

#[test]
fn empty_loop_bytecode() {
    assert_eq!(run::<Bytecode>(&accumulation(), &[0, 99]), 0);
}

#[test]
fn empty_loop_closures() {
    assert_eq!(run::<Closures>(&accumulation(), &[0, 99]), 0);
}

#[test]
fn empty_loop_stack_closures() {
    assert_eq!(run::<StackClosures>(&accumulation(), &[0, 99]), 0);
}

#[test]
fn empty_loop_tape_closures() {
    assert_eq!(run::<TapeClosures>(&accumulation(), &[0, 99]), 0);
}

#[test]
fn empty_loop_register_closures() {
    assert_eq!(run::<RegisterClosures>(&accumulation(), &[0, 99]), 0);
}

#[test]
fn empty_loop_bytecode_closures() {
    assert_eq!(run::<BytecodeClosures>(&accumulation(), &[0, 99]), 0);
}

#[test]
fn empty_loop_tape_continuations() {
    assert_eq!(run::<TapeContinuations>(&accumulation(), &[0, 99]), 0);
}

#[test]
fn empty_loop_closure_continuations() {
    assert_eq!(run::<ClosureContinuations>(&accumulation(), &[0, 99]), 0);
}

#[test]
fn empty_loop_closure_stack_continuations() {
    assert_eq!(run::<ClosureStackContinuations>(&accumulation(), &[0, 99]), 0);
}

#[test]
fn negative_count_never_enters_the_loop() {
    assert_eq!(run::<Walker>(&accumulation(), &[-3, 99]), 0);
    assert_eq!(run::<Bytecode>(&accumulation(), &[-3, 99]), 0);
    assert_eq!(run::<TapeContinuations>(&accumulation(), &[-3, 99]), 0);
    assert_eq!(run::<ClosureContinuations>(&accumulation(), &[-3, 99]), 0);
}

#[test]
fn nested_let_shadowing_walker() {
    assert_eq!(run::<Walker>(&shadowing(), &[]), 6);
}

#[test]
fn nested_let_shadowing_bytecode() {
    assert_eq!(run::<Bytecode>(&shadowing(), &[]), 6);
}

#[test]
fn nested_let_shadowing_closures() {
    assert_eq!(run::<Closures>(&shadowing(), &[]), 6);
}

#[test]
fn nested_let_shadowing_stack_closures() {
    assert_eq!(run::<StackClosures>(&shadowing(), &[]), 6);
}

#[test]
fn nested_let_shadowing_tape_closures() {
    assert_eq!(run::<TapeClosures>(&shadowing(), &[]), 6);
}

#[test]
fn nested_let_shadowing_register_closures() {
    assert_eq!(run::<RegisterClosures>(&shadowing(), &[]), 6);
}

#[test]
fn nested_let_shadowing_bytecode_closures() {
    assert_eq!(run::<BytecodeClosures>(&shadowing(), &[]), 6);
}

#[test]
fn nested_let_shadowing_tape_continuations() {
    assert_eq!(run::<TapeContinuations>(&shadowing(), &[]), 6);
}

#[test]
fn nested_let_shadowing_closure_continuations() {
    assert_eq!(run::<ClosureContinuations>(&shadowing(), &[]), 6);
}

#[test]
fn nested_let_shadowing_closure_stack_continuations() {
    assert_eq!(run::<ClosureStackContinuations>(&shadowing(), &[]), 6);
}

#[test]
fn sequencing_discard_walker() {
    assert_eq!(run::<Walker>(&sequence(), &[]), 2);
    assert_eq!(run::<Walker>(&sum_over_sequence(), &[]), 12);
    assert_eq!(run::<Walker>(&local_after_sequence(), &[]), 7);
}

#[test]
fn sequencing_discard_bytecode() {
    assert_eq!(run::<Bytecode>(&sequence(), &[]), 2);
    assert_eq!(run::<Bytecode>(&sum_over_sequence(), &[]), 12);
    assert_eq!(run::<Bytecode>(&local_after_sequence(), &[]), 7);
}

#[test]
fn sequencing_discard_closures() {
    assert_eq!(run::<Closures>(&sequence(), &[]), 2);
    assert_eq!(run::<Closures>(&sum_over_sequence(), &[]), 12);
    assert_eq!(run::<Closures>(&local_after_sequence(), &[]), 7);
}

#[test]
fn sequencing_discard_stack_closures() {
    assert_eq!(run::<StackClosures>(&sequence(), &[]), 2);
    assert_eq!(run::<StackClosures>(&sum_over_sequence(), &[]), 12);
    assert_eq!(run::<StackClosures>(&local_after_sequence(), &[]), 7);
}

#[test]
fn sequencing_discard_tape_closures() {
    assert_eq!(run::<TapeClosures>(&sequence(), &[]), 2);
    assert_eq!(run::<TapeClosures>(&sum_over_sequence(), &[]), 12);
    assert_eq!(run::<TapeClosures>(&local_after_sequence(), &[]), 7);
}

#[test]
fn sequencing_discard_register_closures() {
    assert_eq!(run::<RegisterClosures>(&sequence(), &[]), 2);
    assert_eq!(run::<RegisterClosures>(&sum_over_sequence(), &[]), 12);
    assert_eq!(run::<RegisterClosures>(&local_after_sequence(), &[]), 7);
}

#[test]
fn sequencing_discard_bytecode_closures() {
    assert_eq!(run::<BytecodeClosures>(&sequence(), &[]), 2);
    assert_eq!(run::<BytecodeClosures>(&sum_over_sequence(), &[]), 12);
    assert_eq!(run::<BytecodeClosures>(&local_after_sequence(), &[]), 7);
}

#[test]
fn sequencing_discard_tape_continuations() {
    assert_eq!(run::<TapeContinuations>(&sequence(), &[]), 2);
    assert_eq!(run::<TapeContinuations>(&sum_over_sequence(), &[]), 12);
    assert_eq!(run::<TapeContinuations>(&local_after_sequence(), &[]), 7);
}

#[test]
fn sequencing_discard_closure_continuations() {
    assert_eq!(run::<ClosureContinuations>(&sequence(), &[]), 2);
    assert_eq!(run::<ClosureContinuations>(&sum_over_sequence(), &[]), 12);
    assert_eq!(run::<ClosureContinuations>(&local_after_sequence(), &[]), 7);
}

#[test]
fn sequencing_discard_closure_stack_continuations() {
    assert_eq!(run::<ClosureStackContinuations>(&sequence(), &[]), 2);
    assert_eq!(run::<ClosureStackContinuations>(&sum_over_sequence(), &[]), 12);
    assert_eq!(run::<ClosureStackContinuations>(&local_after_sequence(), &[]), 7);
}

// let i = 0; catch { while 1 { while i { throw 42 }; i = i + 1 } }
fn throwing_loop() -> Expr {
    *bind(
        litr(0),
        Box::new(Expr::Catch(repeat(
            litr(1),
            then(
                repeat(get(0), Box::new(Expr::Throw(litr(42)))),
                assign(0, add(get(0), litr(1))),
            ),
        ))),
    )
}

#[test]
fn throw_in_second_iteration_stops_at_catch() {
    let expr = throwing_loop();
    let prog = ClosureContinuations::compile(&expr);
    assert_eq!(ClosureContinuations::run_to_exit(&prog, &[]), Exit::Caught(42));
}

#[test]
fn nothing_runs_after_the_catch_that_stopped_a_throw() {
    // (catch { throw 42 }) + 1: the sum is never taken.
    let expr = *add(Box::new(Expr::Catch(Box::new(Expr::Throw(litr(42))))), litr(1));
    let prog = ClosureContinuations::compile(&expr);
    assert_eq!(ClosureContinuations::run_to_exit(&prog, &[]), Exit::Caught(42));
}
