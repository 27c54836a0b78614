//! Which messages of a conversation go with a request to the model.

use vstd::prelude::*;

verus! {

/// How many of the latest messages are sent, besides the first.
pub const CONTEXT_TAIL: usize = 10;

/// Where the tail starts in a conversation of `len` messages: at the
/// message after the first, or later where more than [`CONTEXT_TAIL`]
/// messages follow the first.
pub open spec fn tail_start(len: nat) -> nat {
    if len > CONTEXT_TAIL + 1 {
        (len - CONTEXT_TAIL) as nat
    } else {
        1
    }
}

/// The positions of the messages that are sent, in a conversation of `len`
/// messages: the first message, then the last [`CONTEXT_TAIL`] of the
/// others, in order.
pub open spec fn context_positions(len: nat) -> Seq<usize> {
    if len == 0 {
        Seq::empty()
    } else {
        seq![0usize] + Seq::new((len - tail_start(len)) as nat, |i: int| (tail_start(len) + i) as usize)
    }
}

/// The first message is always sent, no more than [`CONTEXT_TAIL`] others
/// are, the positions rise, and the last message is among them.
pub proof fn lemma_context_positions(len: nat)
    requires
        0 < len <= usize::MAX,
    ensures
        context_positions(len).len() <= CONTEXT_TAIL + 1,
        context_positions(len).len() <= len,
        context_positions(len).first() == 0,
        context_positions(len).last() == len - 1,
        forall|i: int|
            0 <= i < context_positions(len).len() ==> (#[trigger] context_positions(len)[i]) < len,
        forall|i: int, j: int|
            0 <= i < j < context_positions(len).len() ==> (#[trigger] context_positions(len)[i]) < (
            #[trigger] context_positions(len)[j]),
{
}

/// Lists the positions of the messages to send, in a conversation of `len`
/// messages.
pub fn select_context(len: usize) -> (positions: Vec<usize>)
    ensures
        positions@ == context_positions(len as nat),
{
    let mut positions: Vec<usize> = Vec::new();
    if len == 0 {
        return positions;
    }
    positions.push(0);
    let start: usize = if len - 1 > CONTEXT_TAIL {
        len - CONTEXT_TAIL
    } else {
        1
    };
    let mut i: usize = start;
    while i < len
        invariant
            start == tail_start(len as nat),
            start <= i <= len,
            positions@ == seq![0usize] + Seq::new(
                (i - start) as nat,
                |k: int| (tail_start(len as nat) + k) as usize,
            ),
        decreases len - i,
    {
        positions.push(i);
        i += 1;
    }
    positions
}

} // verus!
