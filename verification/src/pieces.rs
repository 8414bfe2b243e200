//! Where a piece of a flat program stands in the whole.

use vstd::prelude::*;

verus! {

/// `piece` stands in `code` from index `at` on.
pub open spec fn holds_at<T>(code: Seq<T>, at: nat, piece: Seq<T>) -> bool {
    &&& at + piece.len() <= code.len()
    &&& forall|i: int| 0 <= i < piece.len() ==> code[at + i] == #[trigger] piece[i]
}

/// Where a concatenation stands in `code`, so do both of its parts.
pub proof fn holds_at_parts<T>(code: Seq<T>, at: nat, a: Seq<T>, b: Seq<T>)
    requires
        holds_at(code, at, a + b),
    ensures
        holds_at(code, at, a),
        holds_at(code, at + a.len(), b),
{
    let ab = a + b;
    assert forall|i: int| 0 <= i < a.len() implies code[at + i] == #[trigger] a[i] by {
        assert(ab[i] == a[i]);
    }
    assert forall|i: int| 0 <= i < b.len() implies code[at + a.len() + i] == #[trigger] b[i] by {
        assert(ab[a.len() + i] == b[i]);
    }
}

/// Where a piece of one element stands in `code`, that element is found.
pub proof fn holds_one<T>(code: Seq<T>, at: nat, x: T)
    requires
        holds_at(code, at, seq![x]),
    ensures
        at < code.len(),
        code[at as int] == x,
{
    assert(seq![x][0] == x);
}

} // verus!
