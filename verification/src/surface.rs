//! Shared resizing for the sample buffers of the delay line and the
//! crossfade engine: leading samples are kept, growth is padded with
//! silence.

use vstd::prelude::*;

verus! {

/// Truncate or zero-pad a sample buffer to the new length.
pub(crate) fn resize_zero_padded(buf: &mut Vec<u32>, new_length: usize)
    ensures
        final(buf)@ == Seq::new(
            new_length as nat,
            |j: int|
                if j < old(buf)@.len() {
                    old(buf)@[j]
                } else {
                    0u32
                },
        ),
{
    if new_length <= buf.len() {
        buf.truncate(new_length);
    } else {
        assert(buf@ =~= Seq::new(
            buf@.len(),
            |j: int|
                if j < old(buf)@.len() {
                    old(buf)@[j]
                } else {
                    0u32
                },
        ));
        while buf.len() < new_length
            invariant
                buf@.len() <= new_length,
                old(buf)@.len() <= buf@.len(),
                buf@ == Seq::new(
                    buf@.len(),
                    |j: int|
                        if j < old(buf)@.len() {
                            old(buf)@[j]
                        } else {
                            0u32
                        },
                ),
            decreases new_length - buf@.len(),
        {
            buf.push(0);
            assert(buf@ =~= Seq::new(
                buf@.len(),
                |j: int|
                    if j < old(buf)@.len() {
                        old(buf)@[j]
                    } else {
                        0u32
                    },
            ));
        }
    }
    assert(buf@ =~= Seq::new(
        new_length as nat,
        |j: int|
            if j < old(buf)@.len() {
                old(buf)@[j]
            } else {
                0u32
            },
    ));
}

} // verus!
