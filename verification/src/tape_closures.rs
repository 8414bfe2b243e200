//! Tape closures: the program is one flat tape of words. A word is the code
//! of a unit or an operand of the unit before it. A cursor runs over the
//! tape: evaluating means reading the code word under the cursor, stepping
//! past it, and letting that code read its own operands and evaluate its own
//! children from the tape, each of which leaves the cursor behind itself.

use vstd::prelude::*;
use crate::pieces::{holds_at, holds_at_parts, holds_one};
use crate::semantics::{eval, evaluates, yields, Outcome};
use crate::{Expr, Vm, UNIT};

verus! {

/// The engine that compiles to a tape of [`Word`]s.
pub struct TapeClosures;

/// The code of one unit. What the unit works on follows it on the tape.
#[derive(Debug, Clone, Copy, PartialEq, Eq)]
pub enum OpFn {
    /// A constant; the constant follows.
    Litr,
    /// An argument; its index follows.
    Arg,
    /// A local; its lexical offset follows.
    Get,
    /// A sum; both operands follow.
    Add,
    /// A binding; the bound tree and the body follow.
    Let,
    /// An assignment; the tree to store follows, then the lexical offset.
    Store,
    /// A loop; the length of the body follows, then the test and the body.
    While,
    /// A sequence; both parts follow.
    Then,
}

/// One word of the tape.
#[derive(Debug, Clone, Copy, PartialEq, Eq)]
pub enum Word {
    /// The code of a unit.
    Code(OpFn),
    /// An integer operand.
    Int(i64),
    /// An index, an offset or a count of words.
    Size(usize),
}

/// What an evaluation from the tape leaves behind.
pub struct Played {
    /// The value.
    pub value: i64,
    /// Where the cursor stands.
    pub pos: nat,
    /// The locals.
    pub locals: Seq<i64>,
}

/// What evaluating from `words` leaves behind when the cursor stands at
/// `pos`; `None` where a loop nest iterates more than `fuel` deep, where a
/// word is not of the kind its place asks for, or where a local, an argument
/// or a word is reached for that is not there.
pub open spec fn play(
    words: Seq<Word>,
    pos: nat,
    args: Seq<i64>,
    locals: Seq<i64>,
    fuel: nat,
) -> Option<
    Played,
>
    decreases fuel, words.len() - pos,
{
    if pos >= words.len() {
        None
    } else {
        match words[pos as int] {
            Word::Code(OpFn::Litr) => if pos + 1 < words.len() {
                match words[pos as int + 1] {
                    Word::Int(x) => Some(Played { value: x, pos: pos + 2, locals }),
                    _ => None,
                }
            } else {
                None
            },
            Word::Code(OpFn::Arg) => if pos + 1 < words.len() {
                match words[pos as int + 1] {
                    Word::Size(i) => if i < args.len() {
                        Some(Played { value: args[i as int], pos: pos + 2, locals })
                    } else {
                        None
                    },
                    _ => None,
                }
            } else {
                None
            },
            Word::Code(OpFn::Get) => if pos + 1 < words.len() {
                match words[pos as int + 1] {
                    Word::Size(k) => if k < locals.len() {
                        Some(Played { value: locals[locals.len() - k - 1], pos: pos + 2, locals })
                    } else {
                        None
                    },
                    _ => None,
                }
            } else {
                None
            },
            Word::Code(OpFn::Add) => match play(words, pos + 1, args, locals, fuel) {
                Some(x) => if pos < x.pos <= words.len() {
                    match play(words, x.pos, args, x.locals, fuel) {
                        Some(y) => Some(Played { value: x.value.wrapping_add(y.value), ..y }),
                        None => None,
                    }
                } else {
                    None
                },
                None => None,
            },
            Word::Code(OpFn::Let) => match play(words, pos + 1, args, locals, fuel) {
                Some(rhs) => if pos < rhs.pos <= words.len() {
                    match play(words, rhs.pos, args, rhs.locals.push(rhs.value), fuel) {
                        Some(then) => if then.locals.len() >= 1 {
                            Some(Played { locals: then.locals.drop_last(), ..then })
                        } else {
                            None
                        },
                        None => None,
                    }
                } else {
                    None
                },
                None => None,
            },
            Word::Code(OpFn::Store) => match play(words, pos + 1, args, locals, fuel) {
                Some(rhs) => if rhs.pos < words.len() {
                    match words[rhs.pos as int] {
                        Word::Size(k) => if k < rhs.locals.len() {
                            Some(
                                Played {
                                    value: UNIT,
                                    pos: rhs.pos + 1,
                                    locals: rhs.locals.update(rhs.locals.len() - k - 1, rhs.value),
                                },
                            )
                        } else {
                            None
                        },
                        _ => None,
                    }
                } else {
                    None
                },
                None => None,
            },
            Word::Code(OpFn::While) => if pos + 1 < words.len() && fuel > 0 {
                match words[pos as int + 1] {
                    Word::Size(end_skip) => match play(
                        words,
                        pos + 2,
                        args,
                        locals,
                        (fuel - 1) as nat,
                    ) {
                        Some(pred) => if pred.value > 0 {
                            if pos < pred.pos <= words.len() {
                                match play(words, pred.pos, args, pred.locals, (fuel - 1) as nat) {
                                    Some(body) => play(
                                        words,
                                        pos,
                                        args,
                                        body.locals,
                                        (fuel - 1) as nat,
                                    ),
                                    None => None,
                                }
                            } else {
                                None
                            }
                        } else if pred.pos + end_skip <= words.len() {
                            Some(
                                Played {
                                    value: UNIT,
                                    pos: (pred.pos + end_skip) as nat,
                                    locals: pred.locals,
                                },
                            )
                        } else {
                            None
                        },
                        None => None,
                    },
                    _ => None,
                }
            } else {
                None
            },
            Word::Code(OpFn::Then) => match play(words, pos + 1, args, locals, fuel) {
                Some(a) => if pos < a.pos <= words.len() {
                    play(words, a.pos, args, a.locals, fuel)
                } else {
                    None
                },
                None => None,
            },
            Word::Int(_) => None,
            Word::Size(_) => None,
        }
    }
}

/// The cursor over a tape.
#[derive(Clone, Copy)]
struct Tape<'a> {
    /// The tape.
    words: &'a [Word],
    /// The index of the word under the cursor.
    pos: usize,
}

impl<'a> Tape<'a> {
    /// Reads the integer under the cursor and steps past it.
    fn next_int(&mut self) -> (res: i64)
        requires
            old(self).pos < old(self).words@.len(),
            old(self).words@[old(self).pos as int] is Int,
        ensures
            old(self).words@[old(self).pos as int] == Word::Int(res),
            final(self).pos == old(self).pos + 1,
            final(self).words == old(self).words,
    {
        let res = match self.words[self.pos] {
            Word::Int(x) => x,
            _ => 0,
        };
        self.pos = self.pos + 1;
        res
    }

    /// Reads the index under the cursor and steps past it.
    fn next_usize(&mut self) -> (res: usize)
        requires
            old(self).pos < old(self).words@.len(),
            old(self).words@[old(self).pos as int] is Size,
        ensures
            old(self).words@[old(self).pos as int] == Word::Size(res),
            final(self).pos == old(self).pos + 1,
            final(self).words == old(self).words,
    {
        let res = match self.words[self.pos] {
            Word::Size(x) => x,
            _ => 0,
        };
        self.pos = self.pos + 1;
        res
    }

    /// Moves the cursor `n` words on.
    fn skip(&mut self, n: usize)
        requires
            old(self).pos + n <= old(self).words@.len(),
        ensures
            final(self).pos == old(self).pos + n,
            final(self).words == old(self).words,
    {
        assert(self.words@.len() == self.words.len());
        self.pos = self.pos + n;
    }

    /// Evaluates the unit under the cursor and leaves the cursor behind it.
    fn next_eval(&mut self, args: &[i64], locals: &mut Vec<i64>, Ghost(fuel): Ghost<nat>) -> (res: i64)
        requires
            play(old(self).words@, old(self).pos as nat, args@, old(locals)@, fuel) is Some,
        ensures
            play(old(self).words@, old(self).pos as nat, args@, old(locals)@, fuel) == Some(
                Played { value: res, pos: final(self).pos as nat, locals: final(locals)@ },
            ),
            final(self).words == old(self).words,
        decreases fuel, old(self).words@.len() - old(self).pos,
    {
        let ghost start = self.pos as nat;
        let f = match self.words[self.pos] {
            Word::Code(f) => f,
            _ => OpFn::Litr,
        };
        self.pos = self.pos + 1;
        match f {
            OpFn::Litr => self.next_int(),
            OpFn::Arg => {
                let idx = self.next_usize();
                args[idx]
            },
            OpFn::Get => {
                let local = self.next_usize();
                locals[locals.len() - local - 1]
            },
            OpFn::Add => {
                let x = self.next_eval(args, locals, Ghost(fuel));
                let y = self.next_eval(args, locals, Ghost(fuel));
                x.wrapping_add(y)
            },
            OpFn::Let => {
                let rhs = self.next_eval(args, locals, Ghost(fuel));
                locals.push(rhs);
                let then = self.next_eval(args, locals, Ghost(fuel));
                locals.pop();
                then
            },
            OpFn::Store => {
                let rhs = self.next_eval(args, locals, Ghost(fuel));
                let local = self.next_usize();
                let local_offs = locals.len() - local - 1;
                locals.set(local_offs, rhs);
                UNIT
            },
            OpFn::While => {
                let end_skip = self.next_usize();
                let old_tape = *self;
                let ghost mut left = fuel;
                loop
                    invariant_except_break
                        self.pos == start + 2,
                        play(self.words@, start, args@, locals@, left) is Some,
                        play(self.words@, start, args@, locals@, left) == play(
                            self.words@,
                            start,
                            args@,
                            old(locals)@,
                            fuel,
                        ),
                    invariant
                        start + 1 < self.words@.len(),
                        self.words@[start as int] == Word::Code(OpFn::While),
                        self.words@[start as int + 1] == Word::Size(end_skip),
                        self.words == old(self).words,
                        old_tape.words == old(self).words,
                        old_tape.pos == start + 2,
                        left <= fuel,
                    ensures
                        self.pos + end_skip <= self.words@.len(),
                        play(self.words@, start, args@, old(locals)@, fuel) == Some(
                            Played {
                                value: UNIT,
                                pos: (self.pos + end_skip) as nat,
                                locals: locals@,
                            },
                        ),
                    decreases left,
                {
                    let c = self.next_eval(args, locals, Ghost((left - 1) as nat));
                    if c > 0 {
                        self.next_eval(args, locals, Ghost((left - 1) as nat));
                        *self = old_tape;
                        proof {
                            left = (left - 1) as nat;
                        }
                    } else {
                        break;
                    }
                }
                self.skip(end_skip);
                UNIT
            },
            OpFn::Then => {
                self.next_eval(args, locals, Ghost(fuel));
                self.next_eval(args, locals, Ghost(fuel))
            },
        }
    }
}

/// The words that `e` compiles to: the code of its root, then what that
/// code reads, in the order in which it reads it.
pub open spec fn tape_of(e: Expr) -> Seq<Word>
    decreases e,
{
    match e {
        Expr::Litr(x) => seq![Word::Code(OpFn::Litr), Word::Int(x)],
        Expr::Arg(i) => seq![Word::Code(OpFn::Arg), Word::Size(i)],
        Expr::Get(k) => seq![Word::Code(OpFn::Get), Word::Size(k)],
        Expr::Add(x, y) => seq![Word::Code(OpFn::Add)] + tape_of(*x) + tape_of(*y),
        Expr::Let(rhs, body) => seq![Word::Code(OpFn::Let)] + tape_of(*rhs) + tape_of(*body),
        Expr::Assign(k, rhs) => seq![Word::Code(OpFn::Store)] + tape_of(*rhs) + seq![Word::Size(k)],
        Expr::While(pred, body) => seq![
            Word::Code(OpFn::While),
            Word::Size(tape_of(*body).len() as usize),
        ] + tape_of(*pred) + tape_of(*body),
        Expr::Then(a, b) => seq![Word::Code(OpFn::Then)] + tape_of(*a) + tape_of(*b),
        Expr::Throw(_) => Seq::empty(),
        Expr::Catch(_) => Seq::empty(),
    }
}

/// The words of a tree do what the tree does: evaluated from their first
/// word they give the tree's value and locals and leave the cursor behind
/// their last word; and they run out of fuel exactly where evaluation does.
#[verifier::rlimit(50)]
pub proof fn tape_plays_as_evaluated(
    e: Expr,
    args: Seq<i64>,
    locals: Seq<i64>,
    fuel: nat,
    words: Seq<Word>,
    pos: nat,
)
    requires
        e.is_base(),
        e.scoped(locals.len()),
        e.args_within(args.len()),
        holds_at(words, pos, tape_of(e)),
        words.len() <= usize::MAX,
    ensures
        match eval(e, args, locals, fuel) {
            Some(Outcome::Value(v, l)) => play(words, pos, args, locals, fuel) == Some(
                Played { value: v, pos: pos + tape_of(e).len(), locals: l },
            ),
            _ => play(words, pos, args, locals, fuel) is None,
        },
        tape_of(e).len() >= 1,
    decreases fuel, e,
{
    crate::semantics::base_never_throws(e, args, locals, fuel);
    crate::semantics::eval_keeps_depth(e, args, locals, fuel);
    match e {
        Expr::Litr(x) => {
            assert(tape_of(e)[0] == Word::Code(OpFn::Litr));
            assert(tape_of(e)[1] == Word::Int(x));
        },
        Expr::Arg(i) => {
            assert(tape_of(e)[0] == Word::Code(OpFn::Arg));
            assert(tape_of(e)[1] == Word::Size(i));
        },
        Expr::Get(k) => {
            assert(tape_of(e)[0] == Word::Code(OpFn::Get));
            assert(tape_of(e)[1] == Word::Size(k));
        },
        Expr::Add(x, y) => {
            let head = seq![Word::Code(OpFn::Add)];
            holds_at_parts(words, pos, head + tape_of(*x), tape_of(*y));
            holds_at_parts(words, pos, head, tape_of(*x));
            holds_one(words, pos, Word::Code(OpFn::Add));
            crate::semantics::eval_keeps_depth(*x, args, locals, fuel);
            tape_plays_as_evaluated(*x, args, locals, fuel, words, pos + 1);
            if let Some(Outcome::Value(_, l1)) = eval(*x, args, locals, fuel) {
                tape_plays_as_evaluated(*y, args, l1, fuel, words, pos + 1 + tape_of(*x).len());
            }
        },
        Expr::Let(rhs, body) => {
            let head = seq![Word::Code(OpFn::Let)];
            holds_at_parts(words, pos, head + tape_of(*rhs), tape_of(*body));
            holds_at_parts(words, pos, head, tape_of(*rhs));
            holds_one(words, pos, Word::Code(OpFn::Let));
            crate::semantics::eval_keeps_depth(*rhs, args, locals, fuel);
            tape_plays_as_evaluated(*rhs, args, locals, fuel, words, pos + 1);
            if let Some(Outcome::Value(v, l1)) = eval(*rhs, args, locals, fuel) {
                crate::semantics::eval_keeps_depth(*body, args, l1.push(v), fuel);
                tape_plays_as_evaluated(
                    *body,
                    args,
                    l1.push(v),
                    fuel,
                    words,
                    pos + 1 + tape_of(*rhs).len(),
                );
            }
        },
        Expr::Assign(k, rhs) => {
            let head = seq![Word::Code(OpFn::Store)];
            holds_at_parts(words, pos, head + tape_of(*rhs), seq![Word::Size(k)]);
            holds_at_parts(words, pos, head, tape_of(*rhs));
            holds_one(words, pos, Word::Code(OpFn::Store));
            holds_one(words, pos + 1 + tape_of(*rhs).len(), Word::Size(k));
            crate::semantics::eval_keeps_depth(*rhs, args, locals, fuel);
            tape_plays_as_evaluated(*rhs, args, locals, fuel, words, pos + 1);
        },
        Expr::While(pred, body) => {
            let skip = Word::Size(tape_of(*body).len() as usize);
            let head = seq![Word::Code(OpFn::While), skip];
            holds_at_parts(words, pos, head + tape_of(*pred), tape_of(*body));
            holds_at_parts(words, pos, head, tape_of(*pred));
            assert(head[0] == Word::Code(OpFn::While));
            assert(head[1] == skip);
            if fuel > 0 {
                let f = (fuel - 1) as nat;
                crate::semantics::eval_keeps_depth(*pred, args, locals, f);
                tape_plays_as_evaluated(*pred, args, locals, f, words, pos + 2);
                if let Some(Outcome::Value(c, l1)) = eval(*pred, args, locals, f) {
                    if c > 0 {
                        crate::semantics::eval_keeps_depth(*body, args, l1, f);
                        tape_plays_as_evaluated(
                            *body,
                            args,
                            l1,
                            f,
                            words,
                            pos + 2 + tape_of(*pred).len(),
                        );
                        if let Some(Outcome::Value(_, l2)) = eval(*body, args, l1, f) {
                            tape_plays_as_evaluated(e, args, l2, f, words, pos);
                        }
                    }
                }
            }
        },
        Expr::Then(a, b) => {
            let head = seq![Word::Code(OpFn::Then)];
            holds_at_parts(words, pos, head + tape_of(*a), tape_of(*b));
            holds_at_parts(words, pos, head, tape_of(*a));
            holds_one(words, pos, Word::Code(OpFn::Then));
            crate::semantics::eval_keeps_depth(*a, args, locals, fuel);
            tape_plays_as_evaluated(*a, args, locals, fuel, words, pos + 1);
            if let Some(Outcome::Value(_, l1)) = eval(*a, args, locals, fuel) {
                tape_plays_as_evaluated(*b, args, l1, fuel, words, pos + 1 + tape_of(*a).len());
            }
        },
        Expr::Throw(_) => {},
        Expr::Catch(_) => {},
    }
}

/// Appends the words of `expr` to `ops`.
fn compile_inner(ops: &mut Vec<Word>, expr: &Expr)
    requires
        expr.is_base(),
    ensures
        final(ops)@ == old(ops)@ + tape_of(*expr),
    decreases *expr,
{
    let ghost o = ops@;
    match expr {
        Expr::Litr(x) => {
            ops.push(Word::Code(OpFn::Litr));
            ops.push(Word::Int(*x));
        },
        Expr::Arg(idx) => {
            ops.push(Word::Code(OpFn::Arg));
            ops.push(Word::Size(*idx));
        },
        Expr::Get(local) => {
            ops.push(Word::Code(OpFn::Get));
            ops.push(Word::Size(*local));
        },
        Expr::Add(x, y) => {
            ops.push(Word::Code(OpFn::Add));
            compile_inner(ops, x);
            compile_inner(ops, y);
        },
        Expr::Let(rhs, then) => {
            ops.push(Word::Code(OpFn::Let));
            compile_inner(ops, rhs);
            compile_inner(ops, then);
        },
        Expr::Assign(local, rhs) => {
            ops.push(Word::Code(OpFn::Store));
            compile_inner(ops, rhs);
            ops.push(Word::Size(*local));
        },
        Expr::While(pred, body) => {
            ops.push(Word::Code(OpFn::While));
            let end_fixup = ops.len();
            ops.push(Word::Size(0));
            compile_inner(ops, pred);
            let body_start = ops.len();
            compile_inner(ops, body);
            let end_skip = ops.len() - body_start;
            ops.set(end_fixup, Word::Size(end_skip));
        },
        Expr::Then(a, b) => {
            ops.push(Word::Code(OpFn::Then));
            compile_inner(ops, a);
            compile_inner(ops, b);
        },
        Expr::Throw(_) => {},
        Expr::Catch(_) => {},
    }
    assert(ops@ =~= o + tape_of(*expr));
}

impl Vm for TapeClosures {
    type Program<'a> = Vec<Word>;

    /// Trees of the base language.
    open spec fn supports(expr: Expr) -> bool {
        expr.is_base()
    }

    /// The program is the tape that [`tape_of`] gives for the tree.
    open spec fn compiled(expr: Expr, prog: &Vec<Word>) -> bool {
        prog@ == tape_of(expr)
    }

    fn compile<'a>(expr: &'a Expr) -> (prog: Vec<Word>) {
        let mut ops = Vec::new();
        compile_inner(&mut ops, expr);
        assert(ops@ =~= tape_of(*expr));
        ops
    }

    fn execute(prog: &Vec<Word>, args: &[i64]) -> (res: i64)
        ensures
            exists|fuel: nat| (#[trigger] play(prog@, 0, args@, Seq::empty(), fuel)) matches Some(p)
                && p.value == res,
    {
        let mut locals: Vec<i64> = Vec::new();
        let ghost fuel: nat;
        proof {
            assert(prog@.len() == prog.len());
            let e = choose|expr: Expr|
                Self::compiled(expr, prog) && Self::supports(expr) && evaluates(expr, args@);
            fuel = crate::semantics::fuel_for_value(e, args@);
            tape_plays_as_evaluated(e, args@, Seq::empty(), fuel, prog@, 0);
            assert forall|expr: Expr|
                Self::compiled(expr, prog) && Self::supports(expr) && evaluates(expr, args@)
                implies yields(expr, args@, play(prog@, 0, args@, Seq::empty(), fuel).unwrap().value) by {
                tape_plays_as_evaluated(expr, args@, Seq::empty(), fuel, prog@, 0);
                let o = eval(expr, args@, Seq::empty(), fuel).unwrap();
                assert(o.exit() == crate::Exit::Value(
                    play(prog@, 0, args@, Seq::empty(), fuel).unwrap().value,
                ));
            }
        }
        let mut tape = Tape { words: prog.as_slice(), pos: 0 };
        tape.next_eval(args, &mut locals, Ghost(fuel))
    }
}

} // verus!
