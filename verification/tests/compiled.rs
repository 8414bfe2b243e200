use vm_perf::bytecode::Op;
use vm_perf::{
    bytecode_closures, closures, register_closures, stack_closures, tape_closures,
    tape_continuations,
};
use vm_perf::{
    Bytecode, BytecodeClosures, Closures, Expr, RegisterClosures, StackClosures, TapeClosures,
    TapeContinuations, Vm, Walker,
};

fn litr(x: i64) -> Box<Expr> {
    Box::new(Expr::Litr(x))
}

fn arg(i: usize) -> Box<Expr> {
    Box::new(Expr::Arg(i))
}

fn get(k: usize) -> Box<Expr> {
    Box::new(Expr::Get(k))
}

fn add(x: Box<Expr>, y: Box<Expr>) -> Box<Expr> {
    Box::new(Expr::Add(x, y))
}

fn bind(rhs: Box<Expr>, body: Box<Expr>) -> Box<Expr> {
    Box::new(Expr::Let(rhs, body))
}

fn assign(k: usize, rhs: Box<Expr>) -> Box<Expr> {
    Box::new(Expr::Assign(k, rhs))
}

fn repeat(pred: Box<Expr>, body: Box<Expr>) -> Box<Expr> {
    Box::new(Expr::While(pred, body))
}

fn then(a: Box<Expr>, b: Box<Expr>) -> Box<Expr> {
    Box::new(Expr::Then(a, b))
}

fn accumulation() -> Expr {
    *bind(
        litr(0),
        then(
            bind(
                arg(0),
                repeat(
                    get(0),
                    then(
                        assign(1, add(get(1), arg(1))),
                        assign(0, add(get(0), litr(-1))),
                    ),
                ),
            ),
            get(0),
        ),
    )
}

#[test]
fn walker_program_is_the_tree() {
    let expr = accumulation();
    let prog = Walker::compile(&expr);
    assert_eq!(*prog, accumulation());
}

#[test]
fn bytecode_of_the_accumulation_loop() {
    let prog = Bytecode::compile(&accumulation());
    let expected = vec![
        Op::Litr(0),
        Op::PushLocal,
        Op::Arg(0),
        Op::PushLocal,
        Op::Get(0),
        Op::JmpZN(15),
        Op::Get(1),
        Op::Arg(1),
        Op::Add,
        Op::SetLocal(1),
        Op::Get(0),
        Op::Litr(-1),
        Op::Add,
        Op::SetLocal(0),
        Op::Jmp(4),
        Op::PopLocal,
        Op::Get(0),
        Op::PopLocal,
        Op::Ret,
    ];
    assert_eq!(prog, expected);
}

#[test]
fn bytecode_of_a_countdown_that_leaves_no_value() {
    // let c = args[0]; while c { c = c + (-1) }
    let expr = bind(arg(0), repeat(get(0), assign(0, add(get(0), litr(-1)))));
    let prog = Bytecode::compile(&expr);
    let expected = vec![
        Op::Arg(0),
        Op::PushLocal,
        Op::Get(0),
        Op::JmpZN(9),
        Op::Get(0),
        Op::Litr(-1),
        Op::Add,
        Op::SetLocal(0),
        Op::Jmp(2),
        Op::PopLocal,
        Op::Ret,
    ];
    assert_eq!(prog, expected);
    assert_eq!(Bytecode::execute(&prog, &[4]), 0);
}

#[test]
fn bytecode_pushes_unit_where_the_value_of_an_assignment_is_used() {
    // let x = 5; (x = 9) + x
    let expr = bind(litr(5), add(assign(0, litr(9)), get(0)));
    let prog = Bytecode::compile(&expr);
    let expected = vec![
        Op::Litr(5),
        Op::PushLocal,
        Op::Litr(9),
        Op::SetLocal(0),
        Op::Litr(0),
        Op::Get(0),
        Op::Add,
        Op::PopLocal,
        Op::Ret,
    ];
    assert_eq!(prog, expected);
    assert_eq!(Bytecode::execute(&prog, &[]), 9);
}

#[test]
fn bytecode_pushes_unit_where_a_loop_is_a_test_or_a_bound_value() {
    // let u = (while args[0] { 1 }); while u { 2 }
    let expr = bind(repeat(arg(0), litr(1)), repeat(get(0), litr(2)));
    let prog = Bytecode::compile(&expr);
    let expected = vec![
        Op::Arg(0),
        Op::JmpZN(5),
        Op::Litr(1),
        Op::Pop,
        Op::Jmp(0),
        Op::Litr(0),
        Op::PushLocal,
        Op::Get(0),
        Op::JmpZN(12),
        Op::Litr(2),
        Op::Pop,
        Op::Jmp(7),
        Op::PopLocal,
        Op::Ret,
    ];
    assert_eq!(prog, expected);
    assert_eq!(Bytecode::execute(&prog, &[0]), 0);
}

// How many of the instructions are a `Jmp`, and how many a `JmpZN`.
fn count_jumps(prog: &[Op]) -> (usize, usize) {
    let mut jumps = 0;
    let mut branches = 0;
    for op in prog {
        match op {
            Op::Jmp(_) => jumps += 1,
            Op::JmpZN(_) => branches += 1,
            _ => {}
        }
    }
    (jumps, branches)
}

fn assert_jumps_in_place(prog: &[Op]) {
    assert!(!prog.is_empty());
    for (j, op) in prog.iter().enumerate() {
        match op {
            Op::Jmp(t) => assert!(*t <= j),
            Op::JmpZN(t) => {
                assert!(j < *t && *t < prog.len());
                assert!(matches!(prog[*t - 1], Op::Jmp(_)));
            }
            Op::Ret => assert_eq!(j, prog.len() - 1),
            _ => {}
        }
    }
    assert_eq!(prog[prog.len() - 1], Op::Ret);
}

#[test]
fn bytecode_jumps_stay_in_place() {
    let prog = Bytecode::compile(&accumulation());
    assert_jumps_in_place(&prog);
    assert_eq!(count_jumps(&prog), (1, 1));
    // while args[0] { while args[1] { 1 } }; a loop as the test of a loop
    let nested = then(
        repeat(arg(0), repeat(arg(1), litr(1))),
        repeat(repeat(arg(0), litr(2)), litr(3)),
    );
    let prog = Bytecode::compile(&nested);
    assert_jumps_in_place(&prog);
    assert_eq!(count_jumps(&prog), (4, 4));
    let prog = Bytecode::compile(&litr(1));
    assert_jumps_in_place(&prog);
    assert_eq!(count_jumps(&prog), (0, 0));
}

#[test]
fn bytecode_pops_what_a_loop_body_and_a_first_part_leave() {
    // (while args[0] { 7 }; 1; 2)
    let expr = then(repeat(arg(0), litr(7)), then(litr(1), litr(2)));
    let prog = Bytecode::compile(&expr);
    let expected = vec![
        Op::Arg(0),
        Op::JmpZN(5),
        Op::Litr(7),
        Op::Pop,
        Op::Jmp(0),
        Op::Litr(1),
        Op::Pop,
        Op::Litr(2),
        Op::Ret,
    ];
    assert_eq!(prog, expected);
    assert_eq!(Bytecode::execute(&prog, &[0]), 2);
}

#[test]
fn stack_closures_capture_the_ends_of_the_loop() {
    let expr = then(repeat(arg(0), litr(7)), litr(2));
    let prog = StackClosures::compile(&expr);
    let expected = vec![
        stack_closures::OpFn::Arg(0),
        stack_closures::OpFn::Branch(5),
        stack_closures::OpFn::Litr(7),
        stack_closures::OpFn::Discard,
        stack_closures::OpFn::Repeat(0),
        stack_closures::OpFn::Litr(2),
        stack_closures::OpFn::Finish,
    ];
    assert_eq!(prog, expected);
}

#[test]
fn bytecode_closures_capture_the_ends_of_the_loop() {
    let expr = bind(litr(3), then(repeat(litr(0), assign(0, litr(1))), get(0)));
    let prog = BytecodeClosures::compile(&expr);
    let expected = vec![
        bytecode_closures::OpFn::Litr(3),
        bytecode_closures::OpFn::Bind,
        bytecode_closures::OpFn::Litr(0),
        bytecode_closures::OpFn::Branch(7),
        bytecode_closures::OpFn::Litr(1),
        bytecode_closures::OpFn::Store(0),
        bytecode_closures::OpFn::Repeat(2),
        bytecode_closures::OpFn::Get(0),
        bytecode_closures::OpFn::Unbind,
        bytecode_closures::OpFn::Finish,
    ];
    assert_eq!(prog, expected);
    assert_eq!(BytecodeClosures::execute(&prog, &[]), 3);
}

#[test]
fn tape_closures_write_the_length_of_the_body_behind_the_loop() {
    // let x = args[0]; while x { x = x + (-1) }
    let expr = bind(arg(0), repeat(get(0), assign(0, add(get(0), litr(-1)))));
    let prog = TapeClosures::compile(&expr);
    let expected = vec![
        tape_closures::Word::Code(tape_closures::OpFn::Let),
        tape_closures::Word::Code(tape_closures::OpFn::Arg),
        tape_closures::Word::Size(0),
        tape_closures::Word::Code(tape_closures::OpFn::While),
        tape_closures::Word::Size(7),
        tape_closures::Word::Code(tape_closures::OpFn::Get),
        tape_closures::Word::Size(0),
        tape_closures::Word::Code(tape_closures::OpFn::Store),
        tape_closures::Word::Code(tape_closures::OpFn::Add),
        tape_closures::Word::Code(tape_closures::OpFn::Get),
        tape_closures::Word::Size(0),
        tape_closures::Word::Code(tape_closures::OpFn::Litr),
        tape_closures::Word::Int(-1),
        tape_closures::Word::Size(0),
    ];
    assert_eq!(prog, expected);
    assert_eq!(TapeClosures::execute(&prog, &[5]), 0);
}

#[test]
fn tape_continuations_of_the_accumulation_loop() {
    let prog = TapeContinuations::compile(&accumulation());
    let expected = vec![
        tape_continuations::Word::Code(tape_continuations::OpFn::Litr),
        tape_continuations::Word::Int(0),
        tape_continuations::Word::Code(tape_continuations::OpFn::LetPush),
        tape_continuations::Word::Code(tape_continuations::OpFn::Arg),
        tape_continuations::Word::Size(0),
        tape_continuations::Word::Code(tape_continuations::OpFn::LetPush),
        tape_continuations::Word::Code(tape_continuations::OpFn::Get),
        tape_continuations::Word::Size(1),
        tape_continuations::Word::Code(tape_continuations::OpFn::WhilePred),
        tape_continuations::Word::Size(8),
        tape_continuations::Word::Code(tape_continuations::OpFn::Arg),
        tape_continuations::Word::Size(1),
        tape_continuations::Word::Code(tape_continuations::OpFn::AddAssignAt1),
        tape_continuations::Word::Code(tape_continuations::OpFn::Litr),
        tape_continuations::Word::Int(-1),
        tape_continuations::Word::Code(tape_continuations::OpFn::AddAssignAt0),
        tape_continuations::Word::Code(tape_continuations::OpFn::WhileLoop),
        tape_continuations::Word::Size(12),
        tape_continuations::Word::Code(tape_continuations::OpFn::LetPop),
        tape_continuations::Word::Code(tape_continuations::OpFn::Get),
        tape_continuations::Word::Size(1),
        tape_continuations::Word::Code(tape_continuations::OpFn::LetPop),
        tape_continuations::Word::Code(tape_continuations::OpFn::Ret),
    ];
    assert_eq!(prog, expected);
}

#[test]
fn tape_continuations_count_left_operands_into_the_distance_of_a_local() {
    // let x = 5; x + (x + x)
    let expr = bind(litr(5), add(get(0), add(get(0), get(0))));
    let prog = TapeContinuations::compile(&expr);
    let expected = vec![
        tape_continuations::Word::Code(tape_continuations::OpFn::Litr),
        tape_continuations::Word::Int(5),
        tape_continuations::Word::Code(tape_continuations::OpFn::LetPush),
        tape_continuations::Word::Code(tape_continuations::OpFn::Get),
        tape_continuations::Word::Size(1),
        tape_continuations::Word::Code(tape_continuations::OpFn::AddSwap),
        tape_continuations::Word::Code(tape_continuations::OpFn::Get),
        tape_continuations::Word::Size(2),
        tape_continuations::Word::Code(tape_continuations::OpFn::AddSwap),
        tape_continuations::Word::Code(tape_continuations::OpFn::Get),
        tape_continuations::Word::Size(3),
        tape_continuations::Word::Code(tape_continuations::OpFn::Add),
        tape_continuations::Word::Code(tape_continuations::OpFn::Add),
        tape_continuations::Word::Code(tape_continuations::OpFn::LetPop),
        tape_continuations::Word::Code(tape_continuations::OpFn::Ret),
    ];
    assert_eq!(prog, expected);
    assert_eq!(TapeContinuations::execute(&prog, &[]), 15);
}

#[test]
fn tape_continuations_add_in_place_at_a_distance() {
    // let a = 1; let b = 2; let c = 3; (a = a + 10; a)
    let expr = bind(
        litr(1),
        bind(litr(2), bind(litr(3), then(assign(2, add(get(2), litr(10))), get(2)))),
    );
    let prog = TapeContinuations::compile(&expr);
    let expected = vec![
        tape_continuations::Word::Code(tape_continuations::OpFn::Litr),
        tape_continuations::Word::Int(1),
        tape_continuations::Word::Code(tape_continuations::OpFn::LetPush),
        tape_continuations::Word::Code(tape_continuations::OpFn::Litr),
        tape_continuations::Word::Int(2),
        tape_continuations::Word::Code(tape_continuations::OpFn::LetPush),
        tape_continuations::Word::Code(tape_continuations::OpFn::Litr),
        tape_continuations::Word::Int(3),
        tape_continuations::Word::Code(tape_continuations::OpFn::LetPush),
        tape_continuations::Word::Code(tape_continuations::OpFn::Litr),
        tape_continuations::Word::Int(10),
        tape_continuations::Word::Code(tape_continuations::OpFn::AddAssign),
        tape_continuations::Word::Size(3),
        tape_continuations::Word::Code(tape_continuations::OpFn::Get),
        tape_continuations::Word::Size(3),
        tape_continuations::Word::Code(tape_continuations::OpFn::LetPop),
        tape_continuations::Word::Code(tape_continuations::OpFn::LetPop),
        tape_continuations::Word::Code(tape_continuations::OpFn::LetPop),
        tape_continuations::Word::Code(tape_continuations::OpFn::Ret),
    ];
    assert_eq!(prog, expected);
    assert_eq!(TapeContinuations::execute(&prog, &[]), 11);
}

#[test]
fn tape_continuations_store_what_is_no_sum_with_the_local_itself() {
    // let a = 1; let b = 2; (a = b + a; a)
    let expr = bind(litr(1), bind(litr(2), then(assign(1, add(get(0), get(1))), get(1))));
    let prog = TapeContinuations::compile(&expr);
    let expected = vec![
        tape_continuations::Word::Code(tape_continuations::OpFn::Litr),
        tape_continuations::Word::Int(1),
        tape_continuations::Word::Code(tape_continuations::OpFn::LetPush),
        tape_continuations::Word::Code(tape_continuations::OpFn::Litr),
        tape_continuations::Word::Int(2),
        tape_continuations::Word::Code(tape_continuations::OpFn::LetPush),
        tape_continuations::Word::Code(tape_continuations::OpFn::Get),
        tape_continuations::Word::Size(1),
        tape_continuations::Word::Code(tape_continuations::OpFn::AddSwap),
        tape_continuations::Word::Code(tape_continuations::OpFn::Get),
        tape_continuations::Word::Size(3),
        tape_continuations::Word::Code(tape_continuations::OpFn::Add),
        tape_continuations::Word::Code(tape_continuations::OpFn::Store),
        tape_continuations::Word::Size(2),
        tape_continuations::Word::Code(tape_continuations::OpFn::Get),
        tape_continuations::Word::Size(2),
        tape_continuations::Word::Code(tape_continuations::OpFn::LetPop),
        tape_continuations::Word::Code(tape_continuations::OpFn::LetPop),
        tape_continuations::Word::Code(tape_continuations::OpFn::Ret),
    ];
    assert_eq!(prog, expected);
    assert_eq!(TapeContinuations::execute(&prog, &[]), 3);
}

#[test]
fn tape_continuations_store_where_what_is_added_assigns_to_the_local() {
    // let x = 1; (x = x + (x = 10; 5); x)
    let expr = bind(
        litr(1),
        then(
            assign(0, add(get(0), then(assign(0, litr(10)), litr(5)))),
            get(0),
        ),
    );
    let prog = TapeContinuations::compile(&expr);
    let expected = vec![
        tape_continuations::Word::Code(tape_continuations::OpFn::Litr),
        tape_continuations::Word::Int(1),
        tape_continuations::Word::Code(tape_continuations::OpFn::LetPush),
        tape_continuations::Word::Code(tape_continuations::OpFn::Get),
        tape_continuations::Word::Size(1),
        tape_continuations::Word::Code(tape_continuations::OpFn::AddSwap),
        tape_continuations::Word::Code(tape_continuations::OpFn::Litr),
        tape_continuations::Word::Int(10),
        tape_continuations::Word::Code(tape_continuations::OpFn::Store),
        tape_continuations::Word::Size(2),
        tape_continuations::Word::Code(tape_continuations::OpFn::Litr),
        tape_continuations::Word::Int(5),
        tape_continuations::Word::Code(tape_continuations::OpFn::Add),
        tape_continuations::Word::Code(tape_continuations::OpFn::Store),
        tape_continuations::Word::Size(1),
        tape_continuations::Word::Code(tape_continuations::OpFn::Get),
        tape_continuations::Word::Size(1),
        tape_continuations::Word::Code(tape_continuations::OpFn::LetPop),
        tape_continuations::Word::Code(tape_continuations::OpFn::Ret),
    ];
    assert_eq!(prog, expected);
    assert_eq!(TapeContinuations::execute(&prog, &[]), 6);
}

#[test]
fn tape_continuations_load_unit_where_no_value_is_left() {
    // let c = args[0]; while c { c = c + (-1) }
    let expr = bind(arg(0), repeat(get(0), assign(0, add(get(0), litr(-1)))));
    let prog = TapeContinuations::compile(&expr);
    let expected = vec![
        tape_continuations::Word::Code(tape_continuations::OpFn::Arg),
        tape_continuations::Word::Size(0),
        tape_continuations::Word::Code(tape_continuations::OpFn::LetPush),
        tape_continuations::Word::Code(tape_continuations::OpFn::Get),
        tape_continuations::Word::Size(1),
        tape_continuations::Word::Code(tape_continuations::OpFn::WhilePred),
        tape_continuations::Word::Size(5),
        tape_continuations::Word::Code(tape_continuations::OpFn::Litr),
        tape_continuations::Word::Int(-1),
        tape_continuations::Word::Code(tape_continuations::OpFn::AddAssignAt0),
        tape_continuations::Word::Code(tape_continuations::OpFn::WhileLoop),
        tape_continuations::Word::Size(9),
        tape_continuations::Word::Code(tape_continuations::OpFn::LetPop),
        tape_continuations::Word::Code(tape_continuations::OpFn::Litr),
        tape_continuations::Word::Int(0),
        tape_continuations::Word::Code(tape_continuations::OpFn::Ret),
    ];
    assert_eq!(prog, expected);
    assert_eq!(TapeContinuations::execute(&prog, &[3]), 0);
}

#[test]
fn tape_continuations_fuse_sums_with_constants_and_the_second_argument() {
    let expr = add(add(add(arg(0), litr(1)), litr(-1)), arg(1));
    let prog = TapeContinuations::compile(&expr);
    let expected = vec![
        tape_continuations::Word::Code(tape_continuations::OpFn::Arg),
        tape_continuations::Word::Size(0),
        tape_continuations::Word::Code(tape_continuations::OpFn::AddOne),
        tape_continuations::Word::Code(tape_continuations::OpFn::AddLitr),
        tape_continuations::Word::Int(-1),
        tape_continuations::Word::Code(tape_continuations::OpFn::AddArg1),
        tape_continuations::Word::Code(tape_continuations::OpFn::Ret),
    ];
    assert_eq!(prog, expected);
    assert_eq!(TapeContinuations::execute(&prog, &[30, 12]), 42);
}

#[test]
fn closures_fuse_sums_and_near_locals() {
    assert_eq!(
        Closures::compile(&add(get(0), litr(1))),
        closures::Func::AddOne(Box::new(closures::Func::Get0))
    );
    assert_eq!(
        Closures::compile(&add(get(1), litr(-1))),
        closures::Func::SubOne(Box::new(closures::Func::Get1))
    );
    assert_eq!(
        Closures::compile(&add(get(2), litr(7))),
        closures::Func::AddLitr(Box::new(closures::Func::Get(2)), 7)
    );
    assert_eq!(
        Closures::compile(&add(arg(0), arg(1))),
        closures::Func::AddArg1(Box::new(closures::Func::Arg0))
    );
    assert_eq!(
        Closures::compile(&add(arg(1), arg(2))),
        closures::Func::Add(Box::new(closures::Func::Arg1), Box::new(closures::Func::Arg(2)))
    );
    assert_eq!(
        Closures::compile(&assign(0, litr(1))),
        closures::Func::Store0(Box::new(closures::Func::Litr(1)))
    );
    assert_eq!(
        Closures::compile(&assign(1, litr(1))),
        closures::Func::Store1(Box::new(closures::Func::Litr(1)))
    );
    assert_eq!(
        Closures::compile(&assign(5, litr(1))),
        closures::Func::Store(5, Box::new(closures::Func::Litr(1)))
    );
}

#[test]
fn register_closures_keep_two_locals_in_registers() {
    assert_eq!(RegisterClosures::compile(&get(0)), register_closures::Func::Get0);
    assert_eq!(RegisterClosures::compile(&get(1)), register_closures::Func::Get1);
    assert_eq!(RegisterClosures::compile(&get(2)), register_closures::Func::Get(2));
    assert_eq!(RegisterClosures::compile(&arg(0)), register_closures::Func::Arg(0));
    assert_eq!(
        RegisterClosures::compile(&add(get(0), litr(-1))),
        register_closures::Func::AddLitr(Box::new(register_closures::Func::Get0), -1)
    );
    assert_eq!(
        RegisterClosures::compile(&add(get(0), litr(1))),
        register_closures::Func::AddOne(Box::new(register_closures::Func::Get0))
    );
    assert_eq!(
        RegisterClosures::compile(&assign(2, arg(1))),
        register_closures::Func::Store(2, Box::new(register_closures::Func::Arg(1)))
    );
}
