use vstd::prelude::*;

use crate::audio::buffer::{lemma_newest_append, newest};

verus! {

/// Slides `incoming` into the end of the fixed-length window `buffer`, so that the window
/// holds the newest `buffer.len()` samples of the old window followed by `incoming`.
pub fn shift_append<T: Copy>(buffer: &mut [T], incoming: &[T])
    ensures
        final(buffer)@.len() == old(buffer)@.len(),
        final(buffer)@ == newest(old(buffer)@ + incoming@, old(buffer)@.len()),
{
    let ghost b0 = buffer@;
    let len = buffer.len();
    let skip: usize = if incoming.len() > len {
        incoming.len() - len
    } else {
        0
    };
    let kept = incoming.len() - skip;
    let keep_old = len - kept;
    let mut index: usize = 0;
    while index < keep_old
        invariant
            keep_old + kept == len,
            len == b0.len(),
            buffer@.len() == len,
            index <= keep_old,
            forall|i: int| 0 <= i < index ==> #[trigger] buffer@[i] == b0[i + kept],
            forall|i: int| index <= i < len ==> #[trigger] buffer@[i] == b0[i],
        decreases keep_old - index,
    {
        let moved = buffer[index + kept];
        buffer[index] = moved;
        index = index + 1;
    }
    let mut offset: usize = 0;
    while offset < kept
        invariant
            keep_old + kept == len,
            skip + kept == incoming.len(),
            len == b0.len(),
            buffer@.len() == len,
            offset <= kept,
            forall|i: int| 0 <= i < keep_old ==> #[trigger] buffer@[i] == b0[i + kept],
            forall|j: int|
                0 <= j < offset ==> #[trigger] buffer@[keep_old + j] == incoming@[skip + j],
        decreases kept - offset,
    {
        let sample = incoming[skip + offset];
        buffer[keep_old + offset] = sample;
        offset = offset + 1;
    }
    proof {
        let target = newest(b0 + incoming@, len as nat);
        assert forall|i: int| 0 <= i < len implies #[trigger] buffer@[i] == target[i] by {
            if i >= keep_old {
                assert(buffer@[keep_old + (i - keep_old)] == incoming@[skip + (i - keep_old)]);
            }
        }
        assert(buffer@ =~= target);
    }
}

/// Sliding two batches into a window one after the other leaves it as sliding in both
/// batches at once.
pub proof fn law_shift_append_in_batches<T>(window: Seq<T>, first: Seq<T>, second: Seq<T>)
    ensures
        newest(newest(window + first, window.len()) + second, window.len()) == newest(
            window + (first + second),
            window.len(),
        ),
{
    lemma_newest_append(window + first, second, window.len());
    assert(window + first + second =~= window + (first + second));
}

} // verus!
