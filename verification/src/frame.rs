//! The buffer that holds the locals of the engines whose calls share one
//! region of memory and address it from a moving first free slot.

use vstd::prelude::*;

verus! {

/// The buffer `frame` with `v` in slot `at`, one slot longer where `at` is
/// its length.
pub open spec fn written(frame: Seq<i64>, at: nat, v: i64) -> Seq<i64> {
    if at < frame.len() {
        frame.update(at as int, v)
    } else {
        frame.push(v)
    }
}

/// Puts `v` in slot `at` of `frame`, growing the buffer by that slot where it
/// ends just before it.
pub fn store(frame: &mut Vec<i64>, at: usize, v: i64)
    requires
        at <= old(frame)@.len(),
    ensures
        final(frame)@ == written(old(frame)@, at as nat, v),
        at < final(frame)@.len() <= usize::MAX,
{
    if at < frame.len() {
        frame.set(at, v);
    } else {
        frame.push(v);
    }
    assert(frame.len() == frame@.len());
}

} // verus!
