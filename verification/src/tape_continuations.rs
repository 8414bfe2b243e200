//! Tape continuations: a tape of words, as in the tape closures engine, but
//! run in continuation-passing style. Every unit ends by handing over to the
//! unit behind it on the tape, so a run is one chain of units, and the
//! current value travels along that chain in a register.
//!
//! Locals and the left operands of sums share one stack. The compiler keeps
//! track of what lies on it: a [`Scope`] per slot, the top one last. From
//! that it turns the lexical offset of a local into the distance of its slot
//! from the top of the stack.
//!
//! An assignment and a loop leave the register as it happens to be. Where the
//! value of such a tree is used, and at the end of a program that leaves no
//! value, a load of unit follows it.

use vstd::prelude::*;
use crate::pieces::{holds_at, holds_at_parts, holds_one};
use crate::semantics::{eval, evaluates, yields, Outcome};
use crate::{Expr, Vm, UNIT};

pub use crate::stack::Stack;

verus! {

/// The engine that compiles to a tape of [`Word`]s run as one chain.
pub struct TapeContinuations;

/// The registers that travel along the chain.
#[derive(Debug, Clone, Copy)]
struct Reg {
    /// The current value.
    r0: i64,
    /// A scratch register.
    r1: i64,
}

/// The code of one unit. What the unit reads follows it on the tape.
#[derive(Debug, Clone, Copy, PartialEq, Eq)]
pub enum OpFn {
    /// Loads the constant that follows.
    Litr,
    /// Loads the argument whose index follows.
    Arg,
    /// Loads the stack slot at the distance that follows.
    Get,
    /// Adds one to the current value.
    AddOne,
    /// Adds the constant that follows to the current value.
    AddLitr,
    /// Adds the second argument to the current value.
    AddArg1,
    /// Pushes the current value as the left operand of a sum.
    AddSwap,
    /// Pops the left operand and adds it to the current value.
    Add,
    /// Pushes the current value as a new local.
    LetPush,
    /// Pops the innermost local.
    LetPop,
    /// Adds the current value to the top stack slot.
    AddAssignAt0,
    /// Adds the current value to the stack slot below the top one.
    AddAssignAt1,
    /// Adds the current value to the stack slot at the distance that
    /// follows.
    AddAssign,
    /// Stores the current value in the stack slot at the distance that
    /// follows.
    Store,
    /// Leaves the loop, by the count of words that follows, where the current
    /// value is not positive.
    WhilePred,
    /// Goes back by the count of words that follows, to the loop's test.
    WhileLoop,
    /// Ends the run.
    Ret,
}

/// One word of the tape.
#[derive(Debug, Clone, Copy, PartialEq, Eq)]
pub enum Word {
    /// The code of a unit.
    Code(OpFn),
    /// An integer operand.
    Int(i64),
    /// An index, a distance from the top of the stack, or a count of words.
    Size(usize),
}

/// What one slot of the stack holds.
#[derive(Debug, Clone, Copy, PartialEq, Eq)]
pub enum Scope {
    /// The left operand of a sum whose right operand is being evaluated.
    Intermediate,
    /// A local.
    Local,
}

/// How many slots lie above the slot of the local at lexical offset
/// `offset`, when `scope` says what each slot holds: an `Intermediate` adds
/// one to the distance of every local below it, and so does a `Local`,
/// except that offset 0 names the nearest `Local` itself.
pub open spec fn stack_offset(scope: Seq<Scope>, offset: nat) -> nat
    decreases scope.len(),
{
    if scope.len() == 0 {
        0
    } else {
        match scope.last() {
            Scope::Intermediate => stack_offset(scope.drop_last(), offset) + 1,
            Scope::Local => if offset == 0 {
                0
            } else {
                stack_offset(scope.drop_last(), (offset - 1) as nat) + 1
            },
        }
    }
}

/// How many slots of `scope` hold a local.
pub open spec fn count_locals(scope: Seq<Scope>) -> nat
    decreases scope.len(),
{
    if scope.len() == 0 {
        0
    } else {
        count_locals(scope.drop_last()) + if scope.last() == Scope::Local {
            1nat
        } else {
            0nat
        }
    }
}

/// The stack that holds `locals` and the left operands `temps`, each list
/// with its newest entry last, in the slots that `scope` gives them.
pub open spec fn layout(temps: Seq<i64>, scope: Seq<Scope>, locals: Seq<i64>) -> Seq<i64>
    decreases scope.len(),
{
    if scope.len() == 0 {
        Seq::empty()
    } else {
        match scope.last() {
            Scope::Intermediate => layout(temps.drop_last(), scope.drop_last(), locals).push(
                temps.last(),
            ),
            Scope::Local => layout(temps, scope.drop_last(), locals.drop_last()).push(
                locals.last(),
            ),
        }
    }
}

/// The stack has one slot per entry of the scope.
pub proof fn layout_len(temps: Seq<i64>, scope: Seq<Scope>, locals: Seq<i64>)
    ensures
        layout(temps, scope, locals).len() == scope.len(),
    decreases scope.len(),
{
    if scope.len() > 0 {
        match scope.last() {
            Scope::Intermediate => layout_len(temps.drop_last(), scope.drop_last(), locals),
            Scope::Local => layout_len(temps, scope.drop_last(), locals.drop_last()),
        }
    }
}

/// The distance that [`stack_offset`] gives finds the local.
pub proof fn layout_get(temps: Seq<i64>, scope: Seq<Scope>, locals: Seq<i64>, k: nat)
    requires
        locals.len() == count_locals(scope),
        k < locals.len(),
    ensures
        stack_offset(scope, k) < scope.len(),
        layout(temps, scope, locals)[scope.len() - 1 - stack_offset(scope, k)]
            == locals[locals.len() - 1 - k],
    decreases scope.len(),
{
    layout_len(temps, scope, locals);
    if scope.len() > 0 {
        match scope.last() {
            Scope::Intermediate => {
                layout_len(temps.drop_last(), scope.drop_last(), locals);
                layout_get(temps.drop_last(), scope.drop_last(), locals, k);
            },
            Scope::Local => {
                layout_len(temps, scope.drop_last(), locals.drop_last());
                if k > 0 {
                    layout_get(temps, scope.drop_last(), locals.drop_last(), (k - 1) as nat);
                }
            },
        }
    }
}

/// A store at the distance that [`stack_offset`] gives changes the local,
/// and nothing else.
pub proof fn layout_set(temps: Seq<i64>, scope: Seq<Scope>, locals: Seq<i64>, k: nat, v: i64)
    requires
        locals.len() == count_locals(scope),
        k < locals.len(),
    ensures
        stack_offset(scope, k) < scope.len(),
        layout(temps, scope, locals).update(scope.len() - 1 - stack_offset(scope, k), v) == layout(
            temps,
            scope,
            locals.update(locals.len() - 1 - k, v),
        ),
    decreases scope.len(),
{
    layout_len(temps, scope, locals);
    layout_get(temps, scope, locals, k);
    let changed = locals.update(locals.len() - 1 - k, v);
    if scope.len() > 0 {
        match scope.last() {
            Scope::Intermediate => {
                layout_len(temps.drop_last(), scope.drop_last(), locals);
                layout_set(temps.drop_last(), scope.drop_last(), locals, k, v);
                assert(layout(temps, scope, locals).update(
                    scope.len() - 1 - stack_offset(scope, k),
                    v,
                ) =~= layout(temps, scope, changed));
            },
            Scope::Local => {
                layout_len(temps, scope.drop_last(), locals.drop_last());
                if k > 0 {
                    layout_set(temps, scope.drop_last(), locals.drop_last(), (k - 1) as nat, v);
                    assert(changed.drop_last() =~= locals.drop_last().update(
                        locals.len() - 1 - k,
                        v,
                    ));
                } else {
                    assert(changed.drop_last() =~= locals.drop_last());
                }
                assert(layout(temps, scope, locals).update(
                    scope.len() - 1 - stack_offset(scope, k),
                    v,
                ) =~= layout(temps, scope, changed));
            },
        }
    }
}

/// The state of the chain between two units.
pub struct Machine {
    /// The index of the next unit's code word.
    pub pos: nat,
    /// The current value.
    pub r0: i64,
    /// The stack, the top slot last.
    pub stack: Seq<i64>,
}

/// The integer operand behind the code word at `pos`, if there is one.
pub open spec fn int_at(words: Seq<Word>, pos: nat) -> Option<i64> {
    if pos + 1 < words.len() {
        match words[pos as int + 1] {
            Word::Int(x) => Some(x),
            _ => None,
        }
    } else {
        None
    }
}

/// The index, distance or count behind the code word at `pos`, if there is
/// one.
pub open spec fn size_at(words: Seq<Word>, pos: nat) -> Option<usize> {
    if pos + 1 < words.len() {
        match words[pos as int + 1] {
            Word::Size(x) => Some(x),
            _ => None,
        }
    } else {
        None
    }
}

/// The state after the unit at `m.pos`; `None` where that unit is `Ret`,
/// where the word at `m.pos` is no code word or lies outside the tape, or
/// where the unit lacks an operand, a stack slot or an argument.
pub open spec fn step(words: Seq<Word>, args: Seq<i64>, m: Machine) -> Option<Machine> {
    if m.pos >= words.len() {
        None
    } else {
        let len = m.stack.len();
        match words[m.pos as int] {
            Word::Code(OpFn::Litr) => match int_at(words, m.pos) {
                Some(x) => Some(Machine { pos: m.pos + 2, r0: x, stack: m.stack }),
                None => None,
            },
            Word::Code(OpFn::Arg) => match size_at(words, m.pos) {
                Some(i) => if i < args.len() {
                    Some(Machine { pos: m.pos + 2, r0: args[i as int], stack: m.stack })
                } else {
                    None
                },
                None => None,
            },
            Word::Code(OpFn::Get) => match size_at(words, m.pos) {
                Some(d) => if 0 < d <= len {
                    Some(Machine { pos: m.pos + 2, r0: m.stack[len - d], stack: m.stack })
                } else {
                    None
                },
                None => None,
            },
            Word::Code(OpFn::AddOne) => Some(
                Machine { pos: m.pos + 1, r0: m.r0.wrapping_add(1), stack: m.stack },
            ),
            Word::Code(OpFn::AddLitr) => match int_at(words, m.pos) {
                Some(y) => Some(
                    Machine { pos: m.pos + 2, r0: m.r0.wrapping_add(y), stack: m.stack },
                ),
                None => None,
            },
            Word::Code(OpFn::AddArg1) => if 1 < args.len() {
                Some(Machine { pos: m.pos + 1, r0: m.r0.wrapping_add(args[1]), stack: m.stack })
            } else {
                None
            },
            Word::Code(OpFn::AddSwap) => Some(
                Machine { pos: m.pos + 1, r0: m.r0, stack: m.stack.push(m.r0) },
            ),
            Word::Code(OpFn::Add) => if len >= 1 {
                Some(
                    Machine {
                        pos: m.pos + 1,
                        r0: m.r0.wrapping_add(m.stack.last()),
                        stack: m.stack.drop_last(),
                    },
                )
            } else {
                None
            },
            Word::Code(OpFn::LetPush) => Some(
                Machine { pos: m.pos + 1, r0: m.r0, stack: m.stack.push(m.r0) },
            ),
            Word::Code(OpFn::LetPop) => if len >= 1 {
                Some(Machine { pos: m.pos + 1, r0: m.r0, stack: m.stack.drop_last() })
            } else {
                None
            },
            Word::Code(OpFn::AddAssignAt0) => if len >= 1 {
                Some(
                    Machine {
                        pos: m.pos + 1,
                        r0: m.r0,
                        stack: m.stack.update(len - 1, m.stack[len - 1].wrapping_add(m.r0)),
                    },
                )
            } else {
                None
            },
            Word::Code(OpFn::AddAssignAt1) => if len >= 2 {
                Some(
                    Machine {
                        pos: m.pos + 1,
                        r0: m.r0,
                        stack: m.stack.update(len - 2, m.stack[len - 2].wrapping_add(m.r0)),
                    },
                )
            } else {
                None
            },
            Word::Code(OpFn::AddAssign) => match size_at(words, m.pos) {
                Some(d) => if 0 < d <= len {
                    Some(
                        Machine {
                            pos: m.pos + 2,
                            r0: m.r0,
                            stack: m.stack.update(len - d, m.stack[len - d].wrapping_add(m.r0)),
                        },
                    )
                } else {
                    None
                },
                None => None,
            },
            Word::Code(OpFn::Store) => match size_at(words, m.pos) {
                Some(d) => if 0 < d <= len {
                    Some(Machine { pos: m.pos + 2, r0: m.r0, stack: m.stack.update(len - d, m.r0) })
                } else {
                    None
                },
                None => None,
            },
            Word::Code(OpFn::WhilePred) => match size_at(words, m.pos) {
                Some(end_skip) => if m.r0 > 0 {
                    Some(Machine { pos: m.pos + 2, r0: m.r0, stack: m.stack })
                } else if m.pos + 2 + end_skip <= words.len() {
                    Some(Machine { pos: (m.pos + 2 + end_skip) as nat, r0: m.r0, stack: m.stack })
                } else {
                    None
                },
                None => None,
            },
            Word::Code(OpFn::WhileLoop) => match size_at(words, m.pos) {
                Some(unskip) => if unskip <= m.pos + 2 {
                    Some(Machine { pos: (m.pos + 2 - unskip) as nat, r0: m.r0, stack: m.stack })
                } else {
                    None
                },
                None => None,
            },
            Word::Code(OpFn::Ret) => None,
            Word::Int(_) => None,
            Word::Size(_) => None,
        }
    }
}

/// The state after `n` units from `m`, or `None` where the chain breaks
/// before that.
pub open spec fn steps(words: Seq<Word>, args: Seq<i64>, m: Machine, n: nat) -> Option<Machine>
    decreases n,
{
    if n == 0 {
        Some(m)
    } else {
        match step(words, args, m) {
            Some(m1) => steps(words, args, m1, (n - 1) as nat),
            None => None,
        }
    }
}

/// The chain has arrived at `Ret`.
pub open spec fn halted(words: Seq<Word>, m: Machine) -> bool {
    m.pos < words.len() && words[m.pos as int] == Word::Code(OpFn::Ret)
}

/// The state in which every run starts.
pub open spec fn initial() -> Machine {
    Machine { pos: 0, r0: 0, stack: Seq::empty() }
}

/// Run from its first word, the tape arrives at `Ret` with `v` as the
/// current value.
pub open spec fn halts_with(words: Seq<Word>, args: Seq<i64>, v: i64) -> bool {
    exists|n: nat| (#[trigger] steps(words, args, initial(), n)) matches Some(m) && halted(words, m)
        && m.r0 == v
}

/// Units run one after the other: `a + b` units are `a` units, then `b`
/// more.
pub proof fn steps_split(words: Seq<Word>, args: Seq<i64>, m: Machine, a: nat, b: nat)
    ensures
        steps(words, args, m, a + b) == match steps(words, args, m, a) {
            Some(m1) => steps(words, args, m1, b),
            None => None,
        },
    decreases a,
{
    if a > 0 {
        if let Some(m1) = step(words, args, m) {
            steps_split(words, args, m1, (a - 1) as nat, b);
            assert((a + b - 1) as nat == (a - 1) as nat + b);
        }
    }
}

/// Two runs from one state that both arrive at `Ret` arrive in the same
/// state.
pub proof fn halt_unique(words: Seq<Word>, args: Seq<i64>, m: Machine, n1: nat, n2: nat)
    requires
        steps(words, args, m, n1) matches Some(f) && halted(words, f),
        steps(words, args, m, n2) matches Some(f) && halted(words, f),
    ensures
        steps(words, args, m, n1) == steps(words, args, m, n2),
    decreases n1,
{
    if n1 > 0 && n2 > 0 {
        let m1 = step(words, args, m).unwrap();
        halt_unique(words, args, m1, (n1 - 1) as nat, (n2 - 1) as nat);
    }
}

/// One unit is one step.
proof fn one_step(words: Seq<Word>, args: Seq<i64>, m: Machine, m1: Machine)
    requires
        step(words, args, m) == Some(m1),
    ensures
        steps(words, args, m, 1) == Some(m1),
{
    reveal_with_fuel(steps, 2);
}

/// Steps add up.
proof fn chain(
    words: Seq<Word>,
    args: Seq<i64>,
    m0: Machine,
    a: nat,
    m1: Machine,
    b: nat,
    m2: Machine,
)
    requires
        steps(words, args, m0, a) == Some(m1),
        steps(words, args, m1, b) == Some(m2),
    ensures
        steps(words, args, m0, a + b) == Some(m2),
{
    steps_split(words, args, m0, a, b);
}

/// `e` assigns to the local that has lexical offset `k` just outside `e`.
pub open spec fn writes(e: Expr, k: nat) -> bool
    decreases e,
{
    match e {
        Expr::Litr(_) => false,
        Expr::Arg(_) => false,
        Expr::Get(_) => false,
        Expr::Add(x, y) => writes(*x, k) || writes(*y, k),
        Expr::Let(rhs, body) => writes(*rhs, k) || writes(*body, k + 1),
        Expr::Assign(j, rhs) => j == k || writes(*rhs, k),
        Expr::While(pred, body) => writes(*pred, k) || writes(*body, k),
        Expr::Then(a, b) => writes(*a, k) || writes(*b, k),
        Expr::Throw(x) => writes(*x, k),
        Expr::Catch(body) => writes(*body, k),
    }
}

/// What an assignment to the local `k` adds to it in place: `b` where the
/// assigned tree is `Add(Get(k), b)` and `b` does not itself assign to that
/// local. The unit that adds in place reads the local after `b` has run,
/// where the tree's own meaning reads it before; the two agree only where `b`
/// leaves the local alone.
pub open spec fn added_in_place(k: usize, rhs: Expr) -> Option<Expr> {
    match rhs {
        Expr::Add(a, b) => match *a {
            Expr::Get(y) => if y == k && !writes(*b, k as nat) {
                Some(*b)
            } else {
                None
            },
            _ => None,
        },
        _ => None,
    }
}

/// No tree assigns to a local whose offset no machine word can hold.
pub proof fn writes_nothing_beyond(e: Expr, k: nat)
    requires
        k > usize::MAX,
    ensures
        !writes(e, k),
    decreases e,
{
    match e {
        Expr::Litr(_) => {},
        Expr::Arg(_) => {},
        Expr::Get(_) => {},
        Expr::Add(x, y) => {
            writes_nothing_beyond(*x, k);
            writes_nothing_beyond(*y, k);
        },
        Expr::Let(rhs, body) => {
            writes_nothing_beyond(*rhs, k);
            writes_nothing_beyond(*body, k + 1);
        },
        Expr::Assign(_, rhs) => {
            writes_nothing_beyond(*rhs, k);
        },
        Expr::While(pred, body) => {
            writes_nothing_beyond(*pred, k);
            writes_nothing_beyond(*body, k);
        },
        Expr::Then(a, b) => {
            writes_nothing_beyond(*a, k);
            writes_nothing_beyond(*b, k);
        },
        Expr::Throw(x) => {
            writes_nothing_beyond(*x, k);
        },
        Expr::Catch(body) => {
            writes_nothing_beyond(*body, k);
        },
    }
}

/// A tree leaves alone the locals that it does not assign to.
pub proof fn unwritten_local_stays(e: Expr, k: nat, args: Seq<i64>, locals: Seq<i64>, fuel: nat)
    requires
        !writes(e, k),
        k < locals.len(),
        e.scoped(locals.len()),
    ensures
        eval(e, args, locals, fuel) matches Some(Outcome::Value(_, l)) ==> l.len() == locals.len()
            && l[l.len() - 1 - k] == locals[locals.len() - 1 - k],
    decreases fuel, e,
{
    match e {
        Expr::Litr(_) => {},
        Expr::Arg(_) => {},
        Expr::Get(_) => {},
        Expr::Add(x, y) => {
            unwritten_local_stays(*x, k, args, locals, fuel);
            if let Some(Outcome::Value(_, l1)) = eval(*x, args, locals, fuel) {
                unwritten_local_stays(*y, k, args, l1, fuel);
            }
        },
        Expr::Let(rhs, body) => {
            unwritten_local_stays(*rhs, k, args, locals, fuel);
            if let Some(Outcome::Value(v, l1)) = eval(*rhs, args, locals, fuel) {
                unwritten_local_stays(*body, k + 1, args, l1.push(v), fuel);
            }
        },
        Expr::Assign(_, rhs) => {
            unwritten_local_stays(*rhs, k, args, locals, fuel);
        },
        Expr::While(pred, body) => {
            if fuel > 0 {
                let f = (fuel - 1) as nat;
                unwritten_local_stays(*pred, k, args, locals, f);
                if let Some(Outcome::Value(c, l1)) = eval(*pred, args, locals, f) {
                    if c > 0 {
                        unwritten_local_stays(*body, k, args, l1, f);
                        if let Some(Outcome::Value(_, l2)) = eval(*body, args, l1, f) {
                            unwritten_local_stays(e, k, args, l2, f);
                        }
                    }
                }
            }
        },
        Expr::Then(a, b) => {
            unwritten_local_stays(*a, k, args, locals, fuel);
            if let Some(Outcome::Value(_, l1)) = eval(*a, args, locals, fuel) {
                unwritten_local_stays(*b, k, args, l1, fuel);
            }
        },
        Expr::Throw(x) => {
            unwritten_local_stays(*x, k, args, locals, fuel);
        },
        Expr::Catch(body) => {
            unwritten_local_stays(*body, k, args, locals, fuel);
        },
    }
}

/// The unit that adds the current value to the stack slot `offset` slots
/// below the top: a unit of its own for the top slot and for the one below
/// it, and else the general unit with the distance behind it.
pub open spec fn add_assign_tape(offset: nat) -> Seq<Word> {
    if offset == 0 {
        seq![Word::Code(OpFn::AddAssignAt0)]
    } else if offset == 1 {
        seq![Word::Code(OpFn::AddAssignAt1)]
    } else {
        seq![Word::Code(OpFn::AddAssign), Word::Size((offset + 1) as usize)]
    }
}

/// The load of unit that follows a subtree whose value is used, if it
/// leaves none.
pub open spec fn fill(e: Expr) -> Seq<Word> {
    if e.returns_value() {
        Seq::empty()
    } else {
        seq![Word::Code(OpFn::Litr), Word::Int(UNIT)]
    }
}

/// The words that `e` compiles to when `scope` says what the stack holds
/// where `e` starts. Every unit leaves the value of its tree in the
/// register. A general sum pushes its left operand and compiles the right one
/// with an `Intermediate` on the stack; a `Let` pushes the bound value and
/// compiles its body with a `Local` on the stack. An assignment of the form
/// `Assign(k, Add(Get(k), b))`, where `b` does not assign to that local,
/// becomes the words of `b` and one unit that adds to the slot in place. A
/// loop is its test, the unit that leaves the loop, its body, and the unit
/// that goes back. The operands of a sum, the value that a `Let` binds, the
/// value that an assignment stores or adds and the test of a loop are
/// compiled as [`valued_tape`] says.
pub open spec fn tape_of(e: Expr, scope: Seq<Scope>) -> Seq<Word>
    decreases e, 1nat,
{
    match e {
        Expr::Litr(x) => seq![Word::Code(OpFn::Litr), Word::Int(x)],
        Expr::Arg(i) => seq![Word::Code(OpFn::Arg), Word::Size(i)],
        Expr::Get(k) => seq![
            Word::Code(OpFn::Get),
            Word::Size((stack_offset(scope, k as nat) + 1) as usize),
        ],
        Expr::Add(x, y) => valued_tape(*x, scope) + adder_tape(*y, scope),
        Expr::Let(rhs, body) => valued_tape(*rhs, scope) + seq![Word::Code(OpFn::LetPush)]
            + tape_of(*body, scope.push(Scope::Local)) + seq![Word::Code(OpFn::LetPop)],
        Expr::Assign(k, rhs) => {
            let plain = valued_tape(*rhs, scope) + seq![
                Word::Code(OpFn::Store),
                Word::Size((stack_offset(scope, k as nat) + 1) as usize),
            ];
            match *rhs {
                Expr::Add(a, b) => match *a {
                    Expr::Get(y) => if y == k && !writes(*b, k as nat) {
                        valued_tape(*b, scope) + add_assign_tape(stack_offset(scope, k as nat))
                    } else {
                        plain
                    },
                    _ => plain,
                },
                _ => plain,
            }
        },
        Expr::While(pred, body) => {
            let tp = valued_tape(*pred, scope);
            let tb = tape_of(*body, scope);
            tp + seq![Word::Code(OpFn::WhilePred), Word::Size((tb.len() + 2) as usize)] + tb + seq![
                Word::Code(OpFn::WhileLoop),
                Word::Size((tp.len() + tb.len() + 4) as usize),
            ]
        },
        Expr::Then(a, b) => tape_of(*a, scope) + tape_of(*b, scope),
        Expr::Throw(_) => Seq::empty(),
        Expr::Catch(_) => Seq::empty(),
    }
}

/// The words of `e` where its value is used: those of `e`, and a load of unit
/// behind them where `e` leaves no value.
pub open spec fn valued_tape(e: Expr, scope: Seq<Scope>) -> Seq<Word>
    decreases e, 2nat,
{
    tape_of(e, scope) + fill(e)
}

/// The words that add the value of `y` to the current value: one unit where
/// `y` is the constant 1, another constant or the second argument, and else
/// the unit that pushes the current value, the words of `y`, and the unit
/// that pops and adds.
pub open spec fn adder_tape(y: Expr, scope: Seq<Scope>) -> Seq<Word>
    decreases y, 3nat,
{
    let general = seq![Word::Code(OpFn::AddSwap)] + valued_tape(
        y,
        scope.push(Scope::Intermediate),
    ) + seq![Word::Code(OpFn::Add)];
    match y {
        Expr::Litr(c) => if c == 1 {
            seq![Word::Code(OpFn::AddOne)]
        } else {
            seq![Word::Code(OpFn::AddLitr), Word::Int(c)]
        },
        Expr::Arg(i) => if i == 1 {
            seq![Word::Code(OpFn::AddArg1)]
        } else {
            general
        },
        _ => general,
    }
}

/// The whole program for `e`: its words with nothing on the stack, a load of
/// unit where `e` leaves no value, then `Ret`.
pub open spec fn program_of(e: Expr) -> Seq<Word> {
    valued_tape(e, Seq::empty()).push(Word::Code(OpFn::Ret))
}

/// The words of a right operand do what the operand does, and add: entered
/// with the left operand's value `a` in the register, they arrive behind
/// their last word with the sum there.
#[verifier::rlimit(50)]
pub proof fn adder_runs_as_evaluated(
    y: Expr,
    scope: Seq<Scope>,
    temps: Seq<i64>,
    args: Seq<i64>,
    locals: Seq<i64>,
    a: i64,
    fuel: nat,
    words: Seq<Word>,
    at: nat,
) -> (n: nat)
    requires
        y.is_base(),
        locals.len() == count_locals(scope),
        y.scoped(locals.len()),
        y.args_within(args.len()),
        eval(y, args, locals, fuel) is Some,
        holds_at(words, at, adder_tape(y, scope)),
        words.len() <= usize::MAX,
        scope.len() + adder_tape(y, scope).len() <= usize::MAX,
    ensures
        eval(y, args, locals, fuel) matches Some(Outcome::Value(b, l2)) && l2.len() == locals.len()
            && steps(
                words,
                args,
                Machine { pos: at, r0: a, stack: layout(temps, scope, locals) },
                n,
            )
            == Some(
            Machine {
                pos: at + adder_tape(y, scope).len(),
                r0: a.wrapping_add(b),
                stack: layout(temps, scope, l2),
            },
        ),
    decreases fuel, y, 3nat,
{
    let t = adder_tape(y, scope);
    let stack = layout(temps, scope, locals);
    let m0 = Machine { pos: at, r0: a, stack };
    let fused = match y {
        Expr::Litr(_) => true,
        Expr::Arg(i) => i == 1,
        _ => false,
    };
    if fused {
        let b = match y {
            Expr::Litr(x) => x,
            _ => args[1],
        };
        assert(words[(at) as int + 0] == t[0]);
        if t.len() > 1 {
            assert(words[(at) as int + 1] == t[1]);
        }
        one_step(words, args, m0, Machine { pos: at + t.len(), r0: a.wrapping_add(b), stack });
        1
    } else {
        let inner = scope.push(Scope::Intermediate);
        let ty = valued_tape(y, inner);
        assert(t == seq![Word::Code(OpFn::AddSwap)] + ty + seq![Word::Code(OpFn::Add)]);
        holds_at_parts(
            words,
            at,
            seq![Word::Code(OpFn::AddSwap)] + ty,
            seq![Word::Code(OpFn::Add)],
        );
        holds_at_parts(words, at, seq![Word::Code(OpFn::AddSwap)], ty);
        holds_one(words, at, Word::Code(OpFn::AddSwap));
        holds_one(words, at + 1 + ty.len(), Word::Code(OpFn::Add));
        assert(inner.drop_last() =~= scope);
        assert(temps.push(a).drop_last() =~= temps);
        let m1 = Machine { pos: at + 1, r0: a, stack: layout(temps.push(a), inner, locals) };
        one_step(words, args, m0, m1);
        let (n2, _) = valued_runs_as_evaluated(
            y,
            inner,
            temps.push(a),
            args,
            locals,
            a,
            fuel,
            words,
            at + 1,
        );
        let (b, l2) = match eval(y, args, locals, fuel) {
            Some(Outcome::Value(b, l2)) => (b, l2),
            _ => (0i64, locals),
        };
        let m2 = Machine { pos: at + 1 + ty.len(), r0: b, stack: layout(temps.push(a), inner, l2) };
        let m3 = Machine {
            pos: at + t.len(),
            r0: a.wrapping_add(b),
            stack: layout(temps, scope, l2),
        };
        assert(m2.stack.drop_last() =~= layout(temps, scope, l2));
        one_step(words, args, m2, m3);
        chain(words, args, m0, 1, m1, n2, m2);
        chain(words, args, m0, 1 + n2, m2, 1, m3);
        1 + n2 + 1
    }
}

/// What the words of `e` need in order to run as `e` evaluates: a tree of
/// the kind that the engine supports, the tree's locals counted by `scope`,
/// an evaluation that comes to an end, the words in place on a tape that a
/// machine can index, and distances that fit a machine word.
pub open spec fn ready(
    e: Expr,
    scope: Seq<Scope>,
    args: Seq<i64>,
    locals: Seq<i64>,
    fuel: nat,
    words: Seq<Word>,
    at: nat,
) -> bool {
    &&& e.is_base()
    &&& locals.len() == count_locals(scope)
    &&& e.scoped(locals.len())
    &&& e.args_within(args.len())
    &&& eval(e, args, locals, fuel) is Some
    &&& holds_at(words, at, tape_of(e, scope))
    &&& words.len() <= usize::MAX
    &&& scope.len() + tape_of(e, scope).len() <= usize::MAX
}

/// The words of `e`, entered at `at` with the register at `r0`, arrive
/// behind their last word after `res.0` units, with the locals as the tree
/// left them, every left operand on the stack untouched, and the register at
/// `res.1`, which is the tree's value where the tree leaves one.
pub open spec fn arrives(
    e: Expr,
    scope: Seq<Scope>,
    temps: Seq<i64>,
    args: Seq<i64>,
    locals: Seq<i64>,
    r0: i64,
    fuel: nat,
    words: Seq<Word>,
    at: nat,
    res: (nat, i64),
) -> bool {
    &&& eval(e, args, locals, fuel) matches Some(Outcome::Value(v, l2))
    &&& l2.len() == locals.len()
    &&& e.returns_value() ==> res.1 == v
    &&& steps(words, args, Machine { pos: at, r0, stack: layout(temps, scope, locals) }, res.0)
        == Some(
        Machine { pos: at + tape_of(e, scope).len(), r0: res.1, stack: layout(temps, scope, l2) },
    )
}

/// The words of a `Let` do what the `Let` does.
#[verifier::rlimit(50)]
proof fn let_runs_as_evaluated(
    e: Expr,
    scope: Seq<Scope>,
    temps: Seq<i64>,
    args: Seq<i64>,
    locals: Seq<i64>,
    r0: i64,
    fuel: nat,
    words: Seq<Word>,
    at: nat,
) -> (res: (nat, i64))
    requires
        ready(e, scope, args, locals, fuel, words, at),
        e is Let,
    ensures
        arrives(e, scope, temps, args, locals, r0, fuel, words, at, res),
    decreases fuel, e, 0nat,
{
    layout_len(temps, scope, locals);
    let t = tape_of(e, scope);
    let stack = layout(temps, scope, locals);
    let m0 = Machine { pos: at, r0, stack };
    match e {
        Expr::Let(rhs, body) => {
            let inner = scope.push(Scope::Local);
            let tr = valued_tape(*rhs, scope);
            let tb = tape_of(*body, inner);
            let push = seq![Word::Code(OpFn::LetPush)];
            let pop = seq![Word::Code(OpFn::LetPop)];
            holds_at_parts(words, at, tr + push + tb, pop);
            holds_at_parts(words, at, tr + push, tb);
            holds_at_parts(words, at, tr, push);
            holds_one(words, at + tr.len(), Word::Code(OpFn::LetPush));
            holds_one(words, at + tr.len() + 1 + tb.len(), Word::Code(OpFn::LetPop));
            let (n1, _) = valued_runs_as_evaluated(
                *rhs,
                scope,
                temps,
                args,
                locals,
                r0,
                fuel,
                words,
                at,
            );
            let (v, l1) = match eval(*rhs, args, locals, fuel) {
                Some(Outcome::Value(v, l1)) => (v, l1),
                _ => (0i64, locals),
            };
            let m1 = Machine { pos: at + tr.len(), r0: v, stack: layout(temps, scope, l1) };
            assert(inner.drop_last() =~= scope);
            assert(l1.push(v).drop_last() =~= l1);
            let m2 = Machine {
                pos: at + tr.len() + 1,
                r0: v,
                stack: layout(temps, inner, l1.push(v)),
            };
            one_step(words, args, m1, m2);
            let (n3, rb) = tape_runs_as_evaluated(
                *body,
                inner,
                temps,
                args,
                l1.push(v),
                v,
                fuel,
                words,
                at + tr.len() + 1,
            );
            let l2 = match eval(*body, args, l1.push(v), fuel) {
                Some(Outcome::Value(_, l2)) => l2,
                _ => locals,
            };
            let m3 = Machine {
                pos: at + tr.len() + 1 + tb.len(),
                r0: rb,
                stack: layout(temps, inner, l2),
            };
            let m4 = Machine {
                pos: at + t.len(),
                r0: rb,
                stack: layout(temps, scope, l2.drop_last()),
            };
            assert(m3.stack.drop_last() =~= m4.stack);
            one_step(words, args, m3, m4);
            chain(words, args, m0, n1, m1, 1, m2);
            chain(words, args, m0, n1 + 1, m2, n3, m3);
            chain(words, args, m0, n1 + 1 + n3, m3, 1, m4);
            (n1 + 1 + n3 + 1, rb)
        },
        _ => (0, 0),
    }
}

/// The words of an assignment do what the assignment does, whether it
/// stores or adds in place.
#[verifier::rlimit(50)]
proof fn assign_runs_as_evaluated(
    e: Expr,
    scope: Seq<Scope>,
    temps: Seq<i64>,
    args: Seq<i64>,
    locals: Seq<i64>,
    r0: i64,
    fuel: nat,
    words: Seq<Word>,
    at: nat,
) -> (res: (nat, i64))
    requires
        ready(e, scope, args, locals, fuel, words, at),
        e is Assign,
    ensures
        arrives(e, scope, temps, args, locals, r0, fuel, words, at, res),
    decreases fuel, e, 0nat,
{
    layout_len(temps, scope, locals);
    let t = tape_of(e, scope);
    let stack = layout(temps, scope, locals);
    let m0 = Machine { pos: at, r0, stack };
    match e {
        Expr::Assign(k, rhs) => {
            let so = stack_offset(scope, k as nat);
            let top = locals.len() - 1 - k;
            if added_in_place(k, *rhs) is Some {
                match *rhs {
                    Expr::Add(a, b) => {
                        assert((*rhs).is_base() && !writes(*b, k as nat));
                        assert((*rhs).scoped(locals.len()) && (*rhs).args_within(args.len()));
                        assert(*a == Expr::Get(k));
                        assert(eval(*a, args, locals, fuel) == Some(
                            Outcome::Value(locals[locals.len() - 1 - k], locals),
                        ));
                        assert(eval(*rhs, args, locals, fuel) is Some);
                        layout_get(temps, scope, locals, k as nat);
                        let tb = valued_tape(*b, scope);
                        let tail = add_assign_tape(so);
                        assert(t == tb + tail);
                        holds_at_parts(words, at, tb, tail);
                        let a0 = locals[top];
                        let (n1, _) = valued_runs_as_evaluated(
                            *b,
                            scope,
                            temps,
                            args,
                            locals,
                            r0,
                            fuel,
                            words,
                            at,
                        );
                        let (bv, l1) = match eval(*b, args, locals, fuel) {
                            Some(Outcome::Value(bv, l1)) => (bv, l1),
                            _ => (0i64, locals),
                        };
                        unwritten_local_stays(*b, k as nat, args, locals, fuel);
                        layout_len(temps, scope, l1);
                        layout_get(temps, scope, l1, k as nat);
                        layout_set(temps, scope, l1, k as nat, a0.wrapping_add(bv));
                        let m1 = Machine {
                            pos: at + tb.len(),
                            r0: bv,
                            stack: layout(temps, scope, l1),
                        };
                        let m2 = Machine {
                            pos: at + t.len(),
                            r0: bv,
                            stack: layout(temps, scope, l1.update(top, a0.wrapping_add(bv))),
                        };
                        assert(words[(at + tb.len()) as int + 0] == tail[0]);
                        if so >= 2 {
                            assert(words[(at + tb.len()) as int + 1] == tail[1]);
                        }
                        one_step(words, args, m1, m2);
                        chain(words, args, m0, n1, m1, 1, m2);
                        (n1 + 1, bv)
                    },
                    _ => (0, 0),
                }
            } else {
                let tr = valued_tape(*rhs, scope);
                let tail = seq![Word::Code(OpFn::Store), Word::Size((so + 1) as usize)];
                assert(t == tr + tail);
                holds_at_parts(words, at, tr, tail);
                let (n1, _) = valued_runs_as_evaluated(
                    *rhs,
                    scope,
                    temps,
                    args,
                    locals,
                    r0,
                    fuel,
                    words,
                    at,
                );
                let (v, l1) = match eval(*rhs, args, locals, fuel) {
                    Some(Outcome::Value(v, l1)) => (v, l1),
                    _ => (0i64, locals),
                };
                layout_len(temps, scope, l1);
                layout_set(temps, scope, l1, k as nat, v);
                let m1 = Machine { pos: at + tr.len(), r0: v, stack: layout(temps, scope, l1) };
                let m2 = Machine {
                    pos: at + t.len(),
                    r0: v,
                    stack: layout(temps, scope, l1.update(top, v)),
                };
                assert(words[(at + tr.len()) as int + 0] == tail[0]);
                assert(words[(at + tr.len()) as int + 1] == tail[1]);
                one_step(words, args, m1, m2);
                chain(words, args, m0, n1, m1, 1, m2);
                (n1 + 1, v)
            }
        },
        _ => (0, 0),
    }
}

/// The words of a loop do what the loop does.
#[verifier::rlimit(50)]
proof fn while_runs_as_evaluated(
    e: Expr,
    scope: Seq<Scope>,
    temps: Seq<i64>,
    args: Seq<i64>,
    locals: Seq<i64>,
    r0: i64,
    fuel: nat,
    words: Seq<Word>,
    at: nat,
) -> (res: (nat, i64))
    requires
        ready(e, scope, args, locals, fuel, words, at),
        e is While,
    ensures
        arrives(e, scope, temps, args, locals, r0, fuel, words, at, res),
    decreases fuel, e, 0nat,
{
    layout_len(temps, scope, locals);
    let t = tape_of(e, scope);
    let stack = layout(temps, scope, locals);
    let m0 = Machine { pos: at, r0, stack };
    match e {
        Expr::While(pred, body) => {
            let f0 = (fuel - 1) as nat;
            let tp = valued_tape(*pred, scope);
            let tb = tape_of(*body, scope);
            let test = seq![Word::Code(OpFn::WhilePred), Word::Size((tb.len() + 2) as usize)];
            let back = seq![
                Word::Code(OpFn::WhileLoop),
                Word::Size((tp.len() + tb.len() + 4) as usize),
            ];
            holds_at_parts(words, at, tp + test + tb, back);
            holds_at_parts(words, at, tp + test, tb);
            holds_at_parts(words, at, tp, test);
            let p = at + tp.len();
            let q = p + 2 + tb.len();
            assert(words[(p) as int + 0] == test[0] && words[(p) as int + 1] == test[1]);
            assert(words[(q) as int + 0] == back[0] && words[(q) as int + 1] == back[1]);
            let (n1, _) = valued_runs_as_evaluated(
                *pred,
                scope,
                temps,
                args,
                locals,
                r0,
                f0,
                words,
                at,
            );
            let (c, l1) = match eval(*pred, args, locals, f0) {
                Some(Outcome::Value(c, l1)) => (c, l1),
                _ => (0i64, locals),
            };
            let m1 = Machine { pos: p, r0: c, stack: layout(temps, scope, l1) };
            if c > 0 {
                let m2 = Machine { pos: p + 2, r0: c, stack: layout(temps, scope, l1) };
                one_step(words, args, m1, m2);
                let (n3, rb) = tape_runs_as_evaluated(
                    *body,
                    scope,
                    temps,
                    args,
                    l1,
                    c,
                    f0,
                    words,
                    p + 2,
                );
                let l2 = match eval(*body, args, l1, f0) {
                    Some(Outcome::Value(_, l2)) => l2,
                    _ => locals,
                };
                let m3 = Machine { pos: q, r0: rb, stack: layout(temps, scope, l2) };
                let m4 = Machine { pos: at, r0: rb, stack: layout(temps, scope, l2) };
                one_step(words, args, m3, m4);
                let (n5, r5) = tape_runs_as_evaluated(e, scope, temps, args, l2, rb, f0, words, at);
                let l3 = match eval(e, args, l2, f0) {
                    Some(Outcome::Value(_, l3)) => l3,
                    _ => locals,
                };
                let m5 = Machine { pos: at + t.len(), r0: r5, stack: layout(temps, scope, l3) };
                chain(words, args, m0, n1, m1, 1, m2);
                chain(words, args, m0, n1 + 1, m2, n3, m3);
                chain(words, args, m0, n1 + 1 + n3, m3, 1, m4);
                chain(words, args, m0, n1 + 1 + n3 + 1, m4, n5, m5);
                (n1 + 1 + n3 + 1 + n5, r5)
            } else {
                let m2 = Machine { pos: at + t.len(), r0: c, stack: layout(temps, scope, l1) };
                one_step(words, args, m1, m2);
                chain(words, args, m0, n1, m1, 1, m2);
                (n1 + 1, c)
            }
        },
        _ => (0, 0),
    }
}

/// The words of a tree do what the tree does: entered at their first word
/// with the tree's locals in the slots that `scope` gives them, they arrive
/// behind their last word after `res.0` units, with the locals as the tree
/// left them, every left operand on the stack untouched, and the register at
/// `res.1`, which is the tree's value where the tree leaves one.
#[verifier::rlimit(50)]
pub proof fn tape_runs_as_evaluated(
    e: Expr,
    scope: Seq<Scope>,
    temps: Seq<i64>,
    args: Seq<i64>,
    locals: Seq<i64>,
    r0: i64,
    fuel: nat,
    words: Seq<Word>,
    at: nat,
) -> (res: (nat, i64))
    requires
        ready(e, scope, args, locals, fuel, words, at),
    ensures
        arrives(e, scope, temps, args, locals, r0, fuel, words, at, res),
    decreases fuel, e, 1nat,
{
    layout_len(temps, scope, locals);
    let t = tape_of(e, scope);
    let stack = layout(temps, scope, locals);
    let m0 = Machine { pos: at, r0, stack };
    match e {
        Expr::Litr(x) => {
            assert(words[(at) as int + 0] == t[0] && words[(at) as int + 1] == t[1]);
            one_step(words, args, m0, Machine { pos: at + 2, r0: x, stack });
            (1, x)
        },
        Expr::Arg(i) => {
            assert(words[(at) as int + 0] == t[0] && words[(at) as int + 1] == t[1]);
            one_step(words, args, m0, Machine { pos: at + 2, r0: args[i as int], stack });
            (1, args[i as int])
        },
        Expr::Get(k) => {
            layout_get(temps, scope, locals, k as nat);
            assert(words[(at) as int + 0] == t[0] && words[(at) as int + 1] == t[1]);
            let v = locals[locals.len() - 1 - k];
            one_step(words, args, m0, Machine { pos: at + 2, r0: v, stack });
            (1, v)
        },
        Expr::Add(x, y) => {
            let tx = valued_tape(*x, scope);
            let ty = adder_tape(*y, scope);
            holds_at_parts(words, at, tx, ty);
            let (n1, ra) = valued_runs_as_evaluated(
                *x,
                scope,
                temps,
                args,
                locals,
                r0,
                fuel,
                words,
                at,
            );
            let (a, l1) = match eval(*x, args, locals, fuel) {
                Some(Outcome::Value(a, l1)) => (a, l1),
                _ => (0i64, locals),
            };
            let m1 = Machine { pos: at + tx.len(), r0: a, stack: layout(temps, scope, l1) };
            let n2 = adder_runs_as_evaluated(
                *y,
                scope,
                temps,
                args,
                l1,
                a,
                fuel,
                words,
                at + tx.len(),
            );
            let (b, l2) = match eval(*y, args, l1, fuel) {
                Some(Outcome::Value(b, l2)) => (b, l2),
                _ => (0i64, locals),
            };
            let m2 = Machine {
                pos: at + t.len(),
                r0: a.wrapping_add(b),
                stack: layout(temps, scope, l2),
            };
            chain(words, args, m0, n1, m1, n2, m2);
            (n1 + n2, a.wrapping_add(b))
        },
        Expr::Let(_, _) => let_runs_as_evaluated(
            e,
            scope,
            temps,
            args,
            locals,
            r0,
            fuel,
            words,
            at,
        ),
        Expr::Assign(_, _) => assign_runs_as_evaluated(
            e,
            scope,
            temps,
            args,
            locals,
            r0,
            fuel,
            words,
            at,
        ),
        Expr::While(_, _) => while_runs_as_evaluated(
            e,
            scope,
            temps,
            args,
            locals,
            r0,
            fuel,
            words,
            at,
        ),
        Expr::Then(a, b) => {
            let ta = tape_of(*a, scope);
            let tb = tape_of(*b, scope);
            holds_at_parts(words, at, ta, tb);
            let (n1, ra) = tape_runs_as_evaluated(
                *a,
                scope,
                temps,
                args,
                locals,
                r0,
                fuel,
                words,
                at,
            );
            let l1 = match eval(*a, args, locals, fuel) {
                Some(Outcome::Value(_, l1)) => l1,
                _ => locals,
            };
            let m1 = Machine { pos: at + ta.len(), r0: ra, stack: layout(temps, scope, l1) };
            let (n2, rb) = tape_runs_as_evaluated(
                *b,
                scope,
                temps,
                args,
                l1,
                ra,
                fuel,
                words,
                at + ta.len(),
            );
            let l2 = match eval(*b, args, l1, fuel) {
                Some(Outcome::Value(_, l2)) => l2,
                _ => locals,
            };
            let m2 = Machine { pos: at + t.len(), r0: rb, stack: layout(temps, scope, l2) };
            chain(words, args, m0, n1, m1, n2, m2);
            (n1 + n2, rb)
        },
        Expr::Throw(_) => (0, 0),
        Expr::Catch(_) => (0, 0),
    }
}

/// The words of a tree whose value is used do what the tree does, and leave
/// its value in the register: unit where the tree leaves none.
#[verifier::rlimit(50)]
pub proof fn valued_runs_as_evaluated(
    e: Expr,
    scope: Seq<Scope>,
    temps: Seq<i64>,
    args: Seq<i64>,
    locals: Seq<i64>,
    r0: i64,
    fuel: nat,
    words: Seq<Word>,
    at: nat,
) -> (res: (nat, i64))
    requires
        e.is_base(),
        locals.len() == count_locals(scope),
        e.scoped(locals.len()),
        e.args_within(args.len()),
        eval(e, args, locals, fuel) is Some,
        holds_at(words, at, valued_tape(e, scope)),
        words.len() <= usize::MAX,
        scope.len() + valued_tape(e, scope).len() <= usize::MAX,
    ensures
        eval(e, args, locals, fuel) matches Some(Outcome::Value(v, l2)) && l2.len() == locals.len()
            && res.1 == v && steps(
            words,
            args,
            Machine { pos: at, r0, stack: layout(temps, scope, locals) },
            res.0,
        ) == Some(
            Machine {
                pos: at + valued_tape(e, scope).len(),
                r0: v,
                stack: layout(temps, scope, l2),
            },
        ),
    decreases fuel, e, 2nat,
{
    let t = tape_of(e, scope);
    holds_at_parts(words, at, t, fill(e));
    let (n, r) = tape_runs_as_evaluated(e, scope, temps, args, locals, r0, fuel, words, at);
    if e.returns_value() {
        (n, r)
    } else {
        crate::semantics::unit_where_nothing_left(e, args, locals, fuel);
        let l2 = match eval(e, args, locals, fuel) {
            Some(Outcome::Value(_, l2)) => l2,
            _ => locals,
        };
        let m0 = Machine { pos: at, r0, stack: layout(temps, scope, locals) };
        let m1 = Machine { pos: at + t.len(), r0: r, stack: layout(temps, scope, l2) };
        let m2 = Machine { pos: at + t.len() + 2, r0: UNIT, stack: layout(temps, scope, l2) };
        assert(words[(at + t.len()) as int + 0] == fill(e)[0]);
        assert(words[(at + t.len()) as int + 1] == fill(e)[1]);
        one_step(words, args, m1, m2);
        chain(words, args, m0, n, m1, 1, m2);
        (n + 1, UNIT)
    }
}

/// A compiled program arrives at `Ret` with what its tree evaluates to in
/// the register, and with nothing else.
pub proof fn program_returns_value(e: Expr, args: Seq<i64>)
    requires
        e.is_base(),
        e.scoped(0),
        e.args_within(args.len()),
        program_of(e).len() <= usize::MAX,
        exists|v: i64| yields(e, args, v),
    ensures
        forall|v: i64| halts_with(program_of(e), args, v) <==> yields(e, args, v),
{
    let words = program_of(e);
    let none = Seq::<Scope>::empty();
    let fuel = crate::semantics::fuel_for_value(e, args);
    assert(holds_at(words, 0, valued_tape(e, none)));
    assert(layout(Seq::empty(), none, Seq::empty()) =~= Seq::empty());
    let (n, r) = valued_runs_as_evaluated(
        e,
        none,
        Seq::empty(),
        args,
        Seq::empty(),
        0,
        fuel,
        words,
        0,
    );
    let fin = steps(words, args, initial(), n).unwrap();
    assert(halted(words, fin));
    let exit = crate::Exit::Value(r);
    assert(eval(e, args, Seq::empty(), fuel) matches Some(o) && o.exit() == exit);
    assert(yields(e, args, r));
    assert(halts_with(words, args, r));
    assert forall|v: i64|
        halts_with(words, args, v)
        implies yields(e, args, v) by {
        let k = choose|k: nat| (#[trigger] steps(words, args, initial(), k)) matches Some(m) && halted(
            words,
            m,
        ) && m.r0 == v;
        halt_unique(words, args, initial(), n, k);
    }
    assert forall|v: i64|
        yields(e, args, v)
        implies halts_with(words, args, v) by {
        crate::semantics::ends_unique(e, args, crate::Exit::Value(v), crate::Exit::Value(r));
    }
}

/// Adds `b` to the stack slot `distance` slots below the first free one.
fn add_assign_at(stack: &mut Stack, distance: usize, b: i64)
    requires
        0 < distance <= old(stack)@.len(),
    ensures
        final(stack)@ == old(stack)@.update(
            old(stack)@.len() - distance,
            old(stack)@[old(stack)@.len() - distance].wrapping_add(b),
        ),
{
    let a = stack.get_offset(distance);
    stack.set_offset(distance, a.wrapping_add(b));
}

/// The cursor over a tape.
#[derive(Clone, Copy)]
struct Tape<'a> {
    /// The tape.
    words: &'a [Word],
    /// The index of the word under the cursor.
    pos: usize,
}

impl<'a> Tape<'a> {
    /// Reads the integer under the cursor and steps past it.
    fn next_int(&mut self) -> (res: i64)
        requires
            old(self).pos < old(self).words@.len(),
            old(self).words@[old(self).pos as int] is Int,
        ensures
            old(self).words@[old(self).pos as int] == Word::Int(res),
            final(self).pos == old(self).pos + 1,
            final(self).words == old(self).words,
    {
        let res = match self.words[self.pos] {
            Word::Int(x) => x,
            _ => 0,
        };
        self.pos = self.pos + 1;
        res
    }

    /// Reads the index, distance or count under the cursor and steps past
    /// it.
    fn next_usize(&mut self) -> (res: usize)
        requires
            old(self).pos < old(self).words@.len(),
            old(self).words@[old(self).pos as int] is Size,
        ensures
            old(self).words@[old(self).pos as int] == Word::Size(res),
            final(self).pos == old(self).pos + 1,
            final(self).words == old(self).words,
    {
        let res = match self.words[self.pos] {
            Word::Size(x) => x,
            _ => 0,
        };
        self.pos = self.pos + 1;
        res
    }

    /// Moves the cursor `n` words on.
    fn skip(&mut self, n: usize)
        requires
            old(self).pos + n <= old(self).words@.len(),
        ensures
            final(self).pos == old(self).pos + n,
            final(self).words == old(self).words,
    {
        assert(self.words@.len() == self.words.len());
        self.pos = self.pos + n;
    }

    /// Moves the cursor `n` words back.
    fn unskip(&mut self, n: usize)
        requires
            n <= old(self).pos,
        ensures
            final(self).pos == old(self).pos - n,
            final(self).words == old(self).words,
    {
        self.pos = self.pos - n;
    }

    /// Runs the chain of units that starts under the cursor, until a unit
    /// ends the run, and hands out the current value.
    fn this_eval(
        self,
        reg: Reg,
        args: &[i64],
        stack: Stack,
        Ghost(n): Ghost<nat>,
        Ghost(fin): Ghost<Machine>,
    ) -> (res: i64)
        requires
            halted(self.words@, fin),
            steps(
                self.words@,
                args@,
                Machine { pos: self.pos as nat, r0: reg.r0, stack: stack@ },
                n,
            )
                == Some(fin),
        ensures
            res == fin.r0,
    {
        let mut tape = self;
        let mut reg = reg;
        let mut stack = stack;
        let ghost mut left = n;
        loop
            invariant
                tape.words == self.words,
                halted(tape.words@, fin),
                steps(
                    tape.words@,
                    args@,
                    Machine { pos: tape.pos as nat, r0: reg.r0, stack: stack@ },
                    left,
                ) == Some(fin),
            decreases left,
        {
            proof {
                reveal_with_fuel(steps, 2);
            }
            assert(tape.words@.len() == tape.words.len());
            let f = match tape.words[tape.pos] {
                Word::Code(f) => f,
                _ => OpFn::Ret,
            };
            tape.pos = tape.pos + 1;
            match f {
                OpFn::Litr => {
                    let x = tape.next_int();
                    reg.r0 = x;
                },
                OpFn::Arg => {
                    let idx = tape.next_usize();
                    let x = args[idx];
                    reg.r0 = x;
                },
                OpFn::Get => {
                    let local = tape.next_usize();
                    let x = stack.get_offset(local);
                    reg.r0 = x;
                },
                OpFn::AddOne => {
                    reg.r0 = reg.r0.wrapping_add(1);
                },
                OpFn::AddLitr => {
                    let y = tape.next_int();
                    reg.r0 = reg.r0.wrapping_add(y);
                },
                OpFn::AddArg1 => {
                    let y = args[1];
                    reg.r0 = reg.r0.wrapping_add(y);
                },
                OpFn::AddSwap => {
                    stack.push(reg.r0);
                },
                OpFn::Add => {
                    let y = stack.pop();
                    reg.r0 = reg.r0.wrapping_add(y);
                },
                OpFn::LetPush => {
                    stack.push(reg.r0);
                },
                OpFn::LetPop => {
                    stack.pop();
                },
                OpFn::AddAssignAt0 => {
                    add_assign_at(&mut stack, 1, reg.r0);
                },
                OpFn::AddAssignAt1 => {
                    add_assign_at(&mut stack, 2, reg.r0);
                },
                OpFn::AddAssign => {
                    let local = tape.next_usize();
                    add_assign_at(&mut stack, local, reg.r0);
                },
                OpFn::Store => {
                    let local = tape.next_usize();
                    let x = reg.r0;
                    stack.set_offset(local, x);
                },
                OpFn::WhilePred => {
                    let end_skip = tape.next_usize();
                    let pred = reg.r0;
                    if pred <= 0 {
                        tape.skip(end_skip);
                    }
                },
                OpFn::WhileLoop => {
                    let unskip = tape.next_usize();
                    tape.unskip(unskip);
                },
                OpFn::Ret => {
                    return reg.r0;
                },
            }
            proof {
                left = (left - 1) as nat;
            }
        }
    }
}

/// Converts the lexical offset of a local into the number of stack slots
/// above its slot, where the first `upto` entries of `scope` say what the
/// stack holds.
fn local_offset_to_stack_offset(scope: &Vec<Scope>, upto: usize, offset: usize) -> (res: usize)
    requires
        upto <= scope@.len(),
        offset < count_locals(scope@.take(upto as int)),
    ensures
        res == stack_offset(scope@.take(upto as int), offset as nat),
        res < upto,
    decreases upto,
{
    let ghost here = scope@.take(upto as int);
    assert(upto > 0);
    assert(here.drop_last() =~= scope@.take(upto - 1));
    match scope[upto - 1] {
        Scope::Intermediate => local_offset_to_stack_offset(scope, upto - 1, offset) + 1,
        Scope::Local => if offset == 0 {
            0
        } else {
            local_offset_to_stack_offset(scope, upto - 1, offset - 1) + 1
        },
    }
}

/// Appends the words of `expr` to `ops`, where `scope` says what the stack
/// holds when they run.
fn compile_inner(ops: &mut Vec<Word>, expr: &Expr, scope: &mut Vec<Scope>)
    requires
        expr.is_base(),
        expr.scoped(count_locals(old(scope)@)),
    ensures
        final(ops)@ == old(ops)@ + tape_of(*expr, old(scope)@),
        final(scope)@ == old(scope)@,
    decreases *expr, 0nat,
{
    let ghost o = ops@;
    let ghost sc = scope@;
    assert(sc.take(sc.len() as int) =~= sc);
    match expr {
        Expr::Litr(x) => {
            ops.push(Word::Code(OpFn::Litr));
            ops.push(Word::Int(*x));
        },
        Expr::Arg(idx) => {
            ops.push(Word::Code(OpFn::Arg));
            ops.push(Word::Size(*idx));
        },
        Expr::Get(local) => {
            ops.push(Word::Code(OpFn::Get));
            let offset = local_offset_to_stack_offset(scope, scope.len(), *local);
            ops.push(Word::Size(offset + 1));
        },
        Expr::Add(x, y) => {
            compile_value(ops, x, scope);
            let ghost mid = ops@;
            match &**y {
                Expr::Litr(1) => {
                    ops.push(Word::Code(OpFn::AddOne));
                    assert(ops@ =~= mid + adder_tape(**y, sc));
                },
                Expr::Litr(y) => {
                    ops.push(Word::Code(OpFn::AddLitr));
                    ops.push(Word::Int(*y));
                    assert(ops@ =~= mid + adder_tape(Expr::Litr(*y), sc));
                },
                Expr::Arg(1) => {
                    ops.push(Word::Code(OpFn::AddArg1));
                    assert(ops@ =~= mid + adder_tape(**y, sc));
                },
                _ => {
                    ops.push(Word::Code(OpFn::AddSwap));
                    scope.push(Scope::Intermediate);
                    assert(scope@.drop_last() =~= sc);
                    compile_value(ops, y, scope);
                    scope.pop();
                    ops.push(Word::Code(OpFn::Add));
                    assert(scope@ =~= sc);
                    assert(ops@ =~= mid + adder_tape(**y, sc));
                },
            }
            assert(ops@ =~= o + tape_of(*expr, sc));
        },
        Expr::Let(rhs, then) => {
            compile_value(ops, rhs, scope);
            ops.push(Word::Code(OpFn::LetPush));
            scope.push(Scope::Local);
            assert(scope@.drop_last() =~= sc);
            compile_inner(ops, then, scope);
            scope.pop();
            ops.push(Word::Code(OpFn::LetPop));
            assert(scope@ =~= sc);
        },
        Expr::Assign(local, rhs) => {
            let fused: Option<&Expr> = match &**rhs {
                Expr::Add(a, b) => match &**a {
                    Expr::Get(y) => if *local == *y && !assigns_to(b, *local) {
                        Some(&**b)
                    } else {
                        None
                    },
                    _ => None,
                },
                _ => None,
            };
            match fused {
                Some(b) => {
                    assert((**rhs).is_base() && (**rhs).scoped(count_locals(sc)));
                    compile_value(ops, b, scope);
                    let local_offset = local_offset_to_stack_offset(scope, scope.len(), *local);
                    match local_offset {
                        0 => ops.push(Word::Code(OpFn::AddAssignAt0)),
                        1 => ops.push(Word::Code(OpFn::AddAssignAt1)),
                        _ => {
                            ops.push(Word::Code(OpFn::AddAssign));
                            ops.push(Word::Size(local_offset + 1));
                        },
                    }
                    assert(ops@ =~= o + tape_of(*expr, sc));
                },
                None => {
                    compile_value(ops, rhs, scope);
                    ops.push(Word::Code(OpFn::Store));
                    let offset = local_offset_to_stack_offset(scope, scope.len(), *local);
                    ops.push(Word::Size(offset + 1));
                    assert(ops@ =~= o + tape_of(*expr, sc));
                },
            }
        },
        Expr::While(pred, body) => {
            let start = ops.len();
            compile_value(ops, pred, scope);
            ops.push(Word::Code(OpFn::WhilePred));
            let end_fixup = ops.len();
            ops.push(Word::Size(0));
            let body_start = ops.len();
            compile_inner(ops, body, scope);
            ops.push(Word::Code(OpFn::WhileLoop));
            let back_fixup = ops.len();
            ops.push(Word::Size(0));
            let end = ops.len();
            ops.set(back_fixup, Word::Size(end - start));
            ops.set(end_fixup, Word::Size(end - body_start));
        },
        Expr::Then(a, b) => {
            compile_inner(ops, a, scope);
            compile_inner(ops, b, scope);
        },
        Expr::Throw(_) => {},
        Expr::Catch(_) => {},
    }
    assert(ops@ =~= o + tape_of(*expr, sc));
}

/// Appends the words of `expr` to `ops`, and a load of unit behind them
/// where `expr` leaves no value: what stands where a value is used.
fn compile_value(ops: &mut Vec<Word>, expr: &Expr, scope: &mut Vec<Scope>)
    requires
        expr.is_base(),
        expr.scoped(count_locals(old(scope)@)),
    ensures
        final(ops)@ == old(ops)@ + valued_tape(*expr, old(scope)@),
        final(scope)@ == old(scope)@,
    decreases *expr, 1nat,
{
    let ghost o = ops@;
    compile_inner(ops, expr, scope);
    if !expr.leaves_value() {
        ops.push(Word::Code(OpFn::Litr));
        ops.push(Word::Int(UNIT));
    }
    assert(ops@ =~= o + valued_tape(*expr, scope@));
}

/// Whether `expr` assigns to the local that has lexical offset `k` just
/// outside `expr`.
fn assigns_to(expr: &Expr, k: usize) -> (found: bool)
    ensures
        found == writes(*expr, k as nat),
    decreases *expr,
{
    match expr {
        Expr::Litr(_) | Expr::Arg(_) | Expr::Get(_) => false,
        Expr::Add(x, y) => assigns_to(x, k) || assigns_to(y, k),
        Expr::Let(rhs, body) => {
            if assigns_to(rhs, k) {
                true
            } else if k < usize::MAX {
                assigns_to(body, k + 1)
            } else {
                proof {
                    writes_nothing_beyond(**body, (k + 1) as nat);
                }
                false
            }
        },
        Expr::Assign(local, rhs) => *local == k || assigns_to(rhs, k),
        Expr::While(pred, body) => assigns_to(pred, k) || assigns_to(body, k),
        Expr::Then(a, b) => assigns_to(a, k) || assigns_to(b, k),
        Expr::Throw(x) => assigns_to(x, k),
        Expr::Catch(body) => assigns_to(body, k),
    }
}

impl Vm for TapeContinuations {
    type Program<'a> = Vec<Word>;

    /// Trees of the base language.
    open spec fn supports(expr: Expr) -> bool {
        expr.is_base()
    }

    /// The program is the tape that [`program_of`] gives for the tree.
    open spec fn compiled(expr: Expr, prog: &Vec<Word>) -> bool {
        prog@ == program_of(expr)
    }

    fn compile<'a>(expr: &'a Expr) -> (prog: Vec<Word>) {
        let mut ops = Vec::new();
        let mut scope: Vec<Scope> = Vec::new();
        compile_value(&mut ops, expr, &mut scope);
        ops.push(Word::Code(OpFn::Ret));
        assert(ops@ =~= program_of(*expr));
        ops
    }

    fn execute(prog: &Vec<Word>, args: &[i64]) -> (res: i64)
        ensures
            halts_with(prog@, args@, res),
    {
        let ghost n: nat;
        let ghost fin: Machine;
        proof {
            assert(prog@.len() == prog.len());
            let e = choose|expr: Expr|
                Self::compiled(expr, prog) && Self::supports(expr) && evaluates(expr, args@);
            program_returns_value(e, args@);
            let v = choose|v: i64| yields(e, args@, v);
            n = choose|n: nat| (#[trigger] steps(prog@, args@, initial(), n)) matches Some(m) && halted(
                prog@,
                m,
            ) && m.r0 == v;
            fin = steps(prog@, args@, initial(), n).unwrap();
            assert forall|expr: Expr|
                Self::compiled(expr, prog) && Self::supports(expr) && evaluates(expr, args@)
                implies yields(expr, args@, fin.r0) by {
                program_returns_value(expr, args@);
            }
        }
        let stack = Stack::with_capacity(1024);
        let tape = Tape { words: prog.as_slice(), pos: 0 };
        tape.this_eval(Reg { r0: 0, r1: 0 }, args, stack, Ghost(n), Ghost(fin))
    }
}

} // verus!
