use vm_perf::{
    Bytecode, BytecodeClosures, ClosureContinuations, ClosureStackContinuations, Closures, Expr,
    RegisterClosures, StackClosures, TapeClosures, TapeContinuations, Vm, Walker,
};

fn litr(x: i64) -> Box<Expr> {
    Box::new(Expr::Litr(x))
}

fn arg(i: usize) -> Box<Expr> {
    Box::new(Expr::Arg(i))
}

fn get(k: usize) -> Box<Expr> {
    Box::new(Expr::Get(k))
}

fn add(x: Box<Expr>, y: Box<Expr>) -> Box<Expr> {
    Box::new(Expr::Add(x, y))
}

fn bind(rhs: Box<Expr>, body: Box<Expr>) -> Box<Expr> {
    Box::new(Expr::Let(rhs, body))
}

fn assign(k: usize, rhs: Box<Expr>) -> Box<Expr> {
    Box::new(Expr::Assign(k, rhs))
}

fn repeat(pred: Box<Expr>, body: Box<Expr>) -> Box<Expr> {
    Box::new(Expr::While(pred, body))
}

fn then(a: Box<Expr>, b: Box<Expr>) -> Box<Expr> {
    Box::new(Expr::Then(a, b))
}

fn run<V: Vm>(expr: &Expr, args: &[i64]) -> i64 {
    let prog = V::compile(expr);
    V::execute(&prog, args)
}

// What every engine returns, after checking that all ten agree.
fn everywhere(expr: &Expr, args: &[i64]) -> i64 {
    let expected = run::<Walker>(expr, args);
    assert_eq!(run::<Bytecode>(expr, args), expected);
    assert_eq!(run::<Closures>(expr, args), expected);
    assert_eq!(run::<StackClosures>(expr, args), expected);
    assert_eq!(run::<TapeClosures>(expr, args), expected);
    assert_eq!(run::<RegisterClosures>(expr, args), expected);
    assert_eq!(run::<BytecodeClosures>(expr, args), expected);
    assert_eq!(run::<TapeContinuations>(expr, args), expected);
    assert_eq!(run::<ClosureContinuations>(expr, args), expected);
    assert_eq!(run::<ClosureStackContinuations>(expr, args), expected);
    expected
}

#[test]
fn constants_arguments_and_sums() {
    assert_eq!(everywhere(&litr(-7), &[]), -7);
    assert_eq!(everywhere(&arg(0), &[11]), 11);
    assert_eq!(everywhere(&arg(2), &[1, 2, 3]), 3);
    assert_eq!(everywhere(&add(arg(0), arg(1)), &[40, 2]), 42);
    assert_eq!(everywhere(&add(arg(1), arg(0)), &[40, 2]), 42);
    assert_eq!(everywhere(&add(arg(0), arg(2)), &[40, 0, 2]), 42);
    assert_eq!(everywhere(&add(arg(0), litr(1)), &[41]), 42);
    assert_eq!(everywhere(&add(arg(0), litr(-1)), &[43]), 42);
    assert_eq!(everywhere(&add(arg(0), litr(100)), &[-58]), 42);
    assert_eq!(everywhere(&add(litr(1), add(litr(2), add(litr(3), litr(4)))), &[]), 10);
    assert_eq!(everywhere(&add(add(add(litr(1), arg(0)), arg(0)), arg(0)), &[3]), 10);
}

#[test]
fn sums_wrap_around() {
    assert_eq!(everywhere(&add(arg(0), litr(1)), &[i64::MAX]), i64::MIN);
    assert_eq!(everywhere(&add(arg(0), litr(-1)), &[i64::MIN]), i64::MAX);
    assert_eq!(everywhere(&add(arg(0), litr(i64::MAX)), &[i64::MAX]), -2);
    assert_eq!(everywhere(&add(arg(0), arg(1)), &[i64::MIN, i64::MIN]), 0);
    assert_eq!(everywhere(&add(arg(0), add(arg(0), arg(0))), &[i64::MAX]), i64::MAX - 2);
    // let x = MAX; (x = x + args[0]; x)
    let expr = bind(litr(i64::MAX), then(assign(0, add(get(0), arg(0))), get(0)));
    assert_eq!(everywhere(&expr, &[2]), i64::MIN + 1);
}

#[test]
fn locals_at_every_depth() {
    // let a = 1; let b = 20; let c = 300; let d = 4000; a + b + c + d
    let expr = bind(
        litr(1),
        bind(
            litr(20),
            bind(
                litr(300),
                bind(litr(4000), add(add(add(get(3), get(2)), get(1)), get(0))),
            ),
        ),
    );
    assert_eq!(everywhere(&expr, &[]), 4321);
    // let a = 1; let b = 2; let c = 3; let d = 4;
    // (a = 10; b = 20; c = 30; d = 40; a + (b + (c + d)))
    let expr = bind(
        litr(1),
        bind(
            litr(2),
            bind(
                litr(3),
                bind(
                    litr(4),
                    then(
                        assign(3, litr(10)),
                        then(
                            assign(2, litr(20)),
                            then(
                                assign(1, litr(30)),
                                then(
                                    assign(0, litr(40)),
                                    add(get(3), add(get(2), add(get(1), get(0)))),
                                ),
                            ),
                        ),
                    ),
                ),
            ),
        ),
    );
    assert_eq!(everywhere(&expr, &[]), 100);
}

#[test]
fn a_local_bound_inside_an_operand_is_gone_behind_it() {
    // let a = 7; (let b = 1; b + a) + a
    let expr = bind(litr(7), add(bind(litr(1), add(get(0), get(1))), get(0)));
    assert_eq!(everywhere(&expr, &[]), 15);
    // let a = 7; let b = 8; a + (let c = b; (b = 100; c + a)) + b
    let expr = bind(
        litr(7),
        bind(
            litr(8),
            add(
                add(get(1), bind(get(0), then(assign(1, litr(100)), add(get(0), get(2))))),
                get(0),
            ),
        ),
    );
    assert_eq!(everywhere(&expr, &[]), 7 + (8 + 7) + 100);
}

#[test]
fn a_stored_local_is_read_back_from_where_it_was_spilled() {
    // let a = 1; let b = 2; let c = 3; (let d = 4; (a = a + d; b = b + d; c = c + d)); a + b + c
    let expr = bind(
        litr(1),
        bind(
            litr(2),
            bind(
                litr(3),
                then(
                    bind(
                        litr(4),
                        then(
                            assign(3, add(get(3), get(0))),
                            then(assign(2, add(get(2), get(0))), assign(1, add(get(1), get(0)))),
                        ),
                    ),
                    add(add(get(2), get(1)), get(0)),
                ),
            ),
        ),
    );
    assert_eq!(everywhere(&expr, &[]), 5 + 6 + 7);
}

#[test]
fn nested_loops() {
    // let total = 0; let i = args[0];
    // while i { let j = args[1]; while j { total = total + 1; j = j + (-1) }; i = i + (-1) }; total
    let expr = bind(
        litr(0),
        then(
            bind(
                arg(0),
                repeat(
                    get(0),
                    then(
                        bind(
                            arg(1),
                            repeat(
                                get(0),
                                then(
                                    assign(2, add(get(2), litr(1))),
                                    assign(0, add(get(0), litr(-1))),
                                ),
                            ),
                        ),
                        assign(0, add(get(0), litr(-1))),
                    ),
                ),
            ),
            get(0),
        ),
    );
    assert_eq!(everywhere(&expr, &[7, 6]), 42);
    assert_eq!(everywhere(&expr, &[0, 6]), 0);
    assert_eq!(everywhere(&expr, &[7, 0]), 0);
}

#[test]
fn a_loop_body_that_leaves_a_value() {
    // let n = args[0]; (while n { (n = n + (-1); n) }; n)
    let expr = bind(
        arg(0),
        then(repeat(get(0), then(assign(0, add(get(0), litr(-1))), get(0))), get(0)),
    );
    assert_eq!(everywhere(&expr, &[5]), 0);
}

#[test]
fn the_sum_is_taken_left_to_right() {
    // let x = 1; x + (x = 10; x)
    let expr = bind(litr(1), add(get(0), then(assign(0, litr(10)), get(0))));
    assert_eq!(everywhere(&expr, &[]), 11);
    // let x = 1; (x = 10; x) + x
    let expr = bind(litr(1), add(then(assign(0, litr(10)), get(0)), get(0)));
    assert_eq!(everywhere(&expr, &[]), 20);
}

#[test]
fn assignments_and_loops_are_unit() {
    assert_eq!(everywhere(&bind(litr(5), assign(0, litr(9))), &[]), 0);
    assert_eq!(everywhere(&repeat(litr(0), litr(1)), &[]), 0);
    assert_eq!(everywhere(&repeat(litr(-4), litr(1)), &[]), 0);
    assert_eq!(everywhere(&then(litr(7), repeat(arg(0), litr(1))), &[-1]), 0);
    // let x = 5; (x = 9) + x
    let expr = bind(litr(5), add(assign(0, litr(9)), get(0)));
    assert_eq!(everywhere(&expr, &[]), 9);
    // let u = (while 0 { 1 }); u + 3
    let expr = bind(repeat(litr(0), litr(1)), add(get(0), litr(3)));
    assert_eq!(everywhere(&expr, &[]), 3);
}

#[test]
fn a_countdown_that_leaves_no_value() {
    // let c = args[0]; while c { c = c + (-1) }
    let expr = bind(arg(0), repeat(get(0), assign(0, add(get(0), litr(-1)))));
    assert_eq!(everywhere(&expr, &[5]), 0);
    assert_eq!(everywhere(&expr, &[0]), 0);
    // let x = 7; x = 3
    assert_eq!(everywhere(&bind(litr(7), assign(0, litr(3))), &[]), 0);
}

#[test]
fn unit_is_a_value_wherever_a_value_is_used() {
    // (let x = 1; x = 2) + 1
    let expr = add(bind(litr(1), assign(0, litr(2))), litr(1));
    assert_eq!(everywhere(&expr, &[]), 1);
    // 5 + (while 0 { 1 })
    assert_eq!(everywhere(&add(litr(5), repeat(litr(0), litr(1))), &[]), 5);
    // (while args[0] { 1 }) + args[1], with a test that is negative
    assert_eq!(everywhere(&add(repeat(arg(0), litr(1)), arg(1)), &[-9, 4]), 4);
    // let x = 5; let y = (x = 9); y + x
    let expr = bind(litr(5), bind(assign(0, litr(9)), add(get(0), get(1))));
    assert_eq!(everywhere(&expr, &[]), 9);
    // let x = 5; (x = (x = 8); x)
    let expr = bind(litr(5), then(assign(0, assign(0, litr(8))), get(0)));
    assert_eq!(everywhere(&expr, &[]), 0);
    // let x = 5; (x = x + (x = 8); x): what is added is unit
    let expr = bind(litr(5), then(assign(0, add(get(0), assign(0, litr(8)))), get(0)));
    assert_eq!(everywhere(&expr, &[]), 5);
    // let n = 3; (while (n = n + (-1)) { 1 }; n): the test is unit, so the
    // loop is left after the first test
    let expr = bind(
        litr(3),
        then(repeat(assign(0, add(get(0), litr(-1))), litr(1)), get(0)),
    );
    assert_eq!(everywhere(&expr, &[]), 2);
}

#[test]
fn adding_in_place_what_assigns_to_the_same_local() {
    // let x = 1; (x = x + (x = 10; 5); x): the local is read before the
    // added tree runs
    let expr = bind(
        litr(1),
        then(
            assign(0, add(get(0), then(assign(0, litr(10)), litr(5)))),
            get(0),
        ),
    );
    assert_eq!(everywhere(&expr, &[]), 6);
    // let a = 1; let b = 2; (a = a + (let c = 0; (a = 10; c + 5)); a + b)
    let expr = bind(
        litr(1),
        bind(
            litr(2),
            then(
                assign(
                    1,
                    add(get(1), bind(litr(0), then(assign(2, litr(10)), add(get(0), litr(5))))),
                ),
                add(get(1), get(0)),
            ),
        ),
    );
    assert_eq!(everywhere(&expr, &[]), 8);
}

#[test]
fn adding_in_place_what_assigns_elsewhere() {
    // let a = 1; let b = 2; (a = a + (b = 5; b); a + b)
    let expr = bind(
        litr(1),
        bind(
            litr(2),
            then(
                assign(1, add(get(1), then(assign(0, litr(5)), get(0)))),
                add(get(1), get(0)),
            ),
        ),
    );
    assert_eq!(everywhere(&expr, &[]), 11);
}

#[test]
fn compiling_twice_gives_programs_that_behave_alike() {
    let expr = bind(arg(0), then(assign(0, add(get(0), arg(1))), add(get(0), litr(1))));
    let first = Bytecode::compile(&expr);
    let second = Bytecode::compile(&expr);
    assert_eq!(first, second);
    assert_eq!(Bytecode::execute(&first, &[1, 2]), Bytecode::execute(&second, &[1, 2]));
    let first = TapeContinuations::compile(&expr);
    let second = TapeContinuations::compile(&expr);
    assert_eq!(first, second);
    assert_eq!(
        TapeContinuations::execute(&first, &[1, 2]),
        TapeContinuations::execute(&second, &[1, 2])
    );
    let first = ClosureContinuations::compile(&expr);
    let second = ClosureContinuations::compile(&expr);
    assert_eq!(first, second);
    assert_eq!(
        ClosureContinuations::execute(&first, &[1, 2]),
        ClosureContinuations::execute(&second, &[1, 2])
    );
    let first = RegisterClosures::compile(&expr);
    let second = RegisterClosures::compile(&expr);
    assert_eq!(first, second);
    assert_eq!(
        RegisterClosures::execute(&first, &[1, 2]),
        RegisterClosures::execute(&second, &[1, 2])
    );
}

fn twice<V: Vm>(expr: &Expr, args: &[i64]) -> (i64, i64) {
    let prog = V::compile(expr);
    (V::execute(&prog, args), V::execute(&prog, args))
}

#[test]
fn a_program_can_be_run_again() {
    // let x = args[0]; (while x { x = x + (-1) }; x = x + 4; x)
    let expr = bind(
        arg(0),
        then(
            repeat(get(0), assign(0, add(get(0), litr(-1)))),
            then(assign(0, add(get(0), litr(4))), get(0)),
        ),
    );
    assert_eq!(twice::<Walker>(&expr, &[3]), (4, 4));
    assert_eq!(twice::<Bytecode>(&expr, &[3]), (4, 4));
    assert_eq!(twice::<Closures>(&expr, &[3]), (4, 4));
    assert_eq!(twice::<StackClosures>(&expr, &[3]), (4, 4));
    assert_eq!(twice::<TapeClosures>(&expr, &[3]), (4, 4));
    assert_eq!(twice::<RegisterClosures>(&expr, &[3]), (4, 4));
    assert_eq!(twice::<BytecodeClosures>(&expr, &[3]), (4, 4));
    assert_eq!(twice::<TapeContinuations>(&expr, &[3]), (4, 4));
    assert_eq!(twice::<ClosureContinuations>(&expr, &[3]), (4, 4));
    assert_eq!(twice::<ClosureStackContinuations>(&expr, &[3]), (4, 4));
}

#[test]
fn more_locals_than_the_buffer_starts_with() {
    // Seventy nested bindings of 1, 2, ..., and the sum of the outermost and
    // the innermost one.
    let depth: usize = 70;
    let mut expr = add(get(depth - 1), get(0));
    let mut level = depth;
    while level > 0 {
        expr = bind(litr(level as i64), expr);
        level -= 1;
    }
    assert_eq!(everywhere(&expr, &[]), 71);
}
