use vm_perf::frame::store;
use vm_perf::stack::Stack;
use vm_perf::Expr;

fn litr(x: i64) -> Box<Expr> {
    Box::new(Expr::Litr(x))
}

#[test]
fn stack_is_addressed_from_its_top() {
    let mut stack = Stack::with_capacity(2);
    assert_eq!(stack.len(), 0);
    stack.push(10);
    stack.push(20);
    stack.push(30);
    assert_eq!(stack.len(), 3);
    assert_eq!(stack.get_offset(1), 30);
    assert_eq!(stack.get_offset(2), 20);
    assert_eq!(stack.get_offset(3), 10);
    stack.set_offset(2, 21);
    stack.set_offset(3, 11);
    assert_eq!(stack.pop(), 30);
    assert_eq!(stack.pop(), 21);
    assert_eq!(stack.get_offset(1), 11);
    assert_eq!(stack.len(), 1);
}

#[test]
fn store_overwrites_a_slot_or_grows_by_one() {
    let mut frame = vec![1, 2, 3];
    store(&mut frame, 1, 20);
    assert_eq!(frame, vec![1, 20, 3]);
    store(&mut frame, 3, 40);
    assert_eq!(frame, vec![1, 20, 3, 40]);
    let mut empty: Vec<i64> = Vec::new();
    store(&mut empty, 0, 7);
    assert_eq!(empty, vec![7]);
}

#[test]
fn which_trees_leave_a_value() {
    assert!(Expr::Litr(1).leaves_value());
    assert!(Expr::Arg(0).leaves_value());
    assert!(Expr::Get(0).leaves_value());
    assert!(Expr::Add(litr(1), litr(2)).leaves_value());
    assert!(!Expr::Assign(0, litr(1)).leaves_value());
    assert!(!Expr::While(litr(0), litr(1)).leaves_value());
    assert!(Expr::Let(Box::new(Expr::While(litr(0), litr(1))), litr(1)).leaves_value());
    assert!(!Expr::Let(litr(1), Box::new(Expr::Assign(0, litr(1)))).leaves_value());
    assert!(Expr::Then(Box::new(Expr::Assign(0, litr(1))), litr(1)).leaves_value());
    assert!(!Expr::Then(litr(1), Box::new(Expr::While(litr(0), litr(1)))).leaves_value());
    assert!(!Expr::Throw(litr(1)).leaves_value());
    assert!(Expr::Catch(litr(1)).leaves_value());
    assert!(!Expr::Catch(Box::new(Expr::Throw(litr(1)))).leaves_value());
}
