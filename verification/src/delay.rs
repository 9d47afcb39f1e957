//! Fixed-capacity circular delay line for the feedback echo path.
//!
//! The line stores the last `length` committed samples in a ring addressed by
//! a monotonically advancing cursor. Each render step first taps the sample
//! the cursor points at, then commits a replacement (the raw input plus the
//! scaled tapped sample, mixed by the adapter) and advances. The contracts
//! speak about the history of committed samples: the tapped sample is always
//! the one committed `length` steps earlier, which is the delay law — with a
//! feedback factor of zero every committed sample is the raw input, so the
//! tap at step `i` returns input `i − length`, and silence before that.

use vstd::prelude::*;

verus! {

/// The sample a ring slot holds, given the history of commits, the cursor and
/// the length: the history entry that last wrote the slot, or silence if the
/// slot was never written since the last reset.
spec fn slot_spec(hist: Seq<u32>, cursor: int, j: int, len: int) -> u32 {
    let k = hist.len() as int;
    if j < cursor {
        hist[k - cursor + j]
    } else if k - cursor + j - len >= 0 {
        hist[k - cursor + j - len]
    } else {
        0u32
    }
}

/// A circular buffer of samples with a shared read/write cursor.
///
/// A line of length zero is bypassed: it holds nothing, so its tap is
/// silence and the output is the dry signal alone.
pub struct DelayLine {
    buf: Vec<u32>,
    cursor: usize,
    hist: Ghost<Seq<u32>>,
}

impl DelayLine {
    /// The configured delay length in samples.
    pub open spec fn length(self) -> int {
        self.contents().len() as int
    }

    /// The cursor the next tap and commit address.
    pub closed spec fn position(self) -> int {
        self.cursor as int
    }

    /// Every sample committed since the line was created or last resized.
    /// A resize seeds the history with the kept buffer contents, which read
    /// back over the following steps exactly as if they had just been
    /// committed in order.
    pub closed spec fn history(self) -> Seq<u32> {
        self.hist@
    }

    /// The raw ring contents, slot by slot.
    pub closed spec fn contents(self) -> Seq<u32> {
        self.buf@
    }

    /// The cursor stays inside the ring and every slot holds the history
    /// entry that last wrote it.
    pub closed spec fn wf(self) -> bool {
        let len = self.buf@.len() as int;
        let k = self.hist@.len() as int;
        if len == 0 {
            self.cursor == 0 && k == 0
        } else {
            &&& (self.cursor as int) < len
            &&& (self.cursor as int) <= k
            &&& forall|j: int|
                0 <= j < len ==> self.buf@[j] == slot_spec(self.hist@, self.cursor as int, j, len)
        }
    }

    /// The sample the next tap returns: the one committed `length` steps
    /// ago, and silence while the history is still shorter than the line or
    /// the line is bypassed (a bypassed line holds nothing to play back).
    pub open spec fn spec_tap(self) -> u32 {
        if self.length() == 0 {
            0u32
        } else if self.history().len() >= self.length() {
            self.history()[self.history().len() - self.length()]
        } else {
            0u32
        }
    }

    /// A line of `length` slots of silence, cursor at the start.
    pub fn new(length: usize) -> (line: Self)
        ensures
            line.wf(),
            line.length() == length,
            line.position() == 0,
            line.history() == Seq::<u32>::empty(),
            line.contents() == Seq::new(length as nat, |j: int| 0u32),
    {
        let mut buf: Vec<u32> = Vec::new();
        let mut i: usize = 0;
        while i < length
            invariant
                i <= length,
                buf@ == Seq::new(i as nat, |j: int| 0u32),
            decreases length - i,
        {
            buf.push(0);
            i = i + 1;
            assert(buf@ =~= Seq::new(i as nat, |j: int| 0u32));
        }
        DelayLine { buf, cursor: 0, hist: Ghost(Seq::empty()) }
    }

    /// The configured delay length in samples.
    pub fn len(&self) -> (n: usize)
        ensures
            n == self.length(),
    {
        self.buf.len()
    }

    /// Read the sample the cursor points at without advancing; a bypassed
    /// line taps silence, so nothing reaches the wet path and the output
    /// stays dry only. Together with `commit` this is the delay law: the
    /// tapped sample is the commit from `length` steps ago.
    pub fn tap(&self) -> (s: u32)
        requires
            self.wf(),
        ensures
            s == self.spec_tap(),
    {
        if self.buf.len() == 0 {
            0
        } else {
            assert(self.buf@[self.cursor as int] == slot_spec(
                self.hist@,
                self.cursor as int,
                self.cursor as int,
                self.buf@.len() as int,
            ));
            self.buf[self.cursor]
        }
    }

    /// Store a sample at the cursor and advance it one slot, wrapping at the
    /// end of the ring.
    pub fn commit(&mut self, sample: u32)
        requires
            old(self).wf(),
            old(self).length() > 0,
        ensures
            final(self).wf(),
            final(self).length() == old(self).length(),
            final(self).history() == old(self).history().push(sample),
            final(self).contents() == old(self).contents().update(old(self).position(), sample),
            final(self).position() == if old(self).position() + 1 == old(self).length() {
                0int
            } else {
                old(self).position() + 1
            },
    {
        let c: usize = self.cursor;
        let n: usize = self.buf.len();
        self.buf[c] = sample;
        self.hist = Ghost(self.hist@.push(sample));
        self.cursor = if c + 1 == n {
            0
        } else {
            c + 1
        };
        proof {
            let len = self.buf@.len() as int;
            let c0 = c as int;
            assert forall|j: int| 0 <= j < len implies self.buf@[j] == slot_spec(
                self.hist@,
                self.cursor as int,
                j,
                len,
            ) by {
                if j != c0 {
                    assert(old(self).buf@[j] == slot_spec(old(self).hist@, c0, j, len));
                }
            }
        }
    }

    /// Change the delay length: samples beyond the new length are discarded,
    /// a grown line is padded with silence, and the cursor resets to the
    /// start. The kept samples read back over the following steps as if they
    /// had just been committed in order.
    pub fn resize(&mut self, new_length: usize)
        requires
            old(self).wf(),
        ensures
            final(self).wf(),
            final(self).length() == new_length,
            final(self).position() == 0,
            final(self).contents() == Seq::new(
                new_length as nat,
                |j: int|
                    if j < old(self).contents().len() {
                        old(self).contents()[j]
                    } else {
                        0u32
                    },
            ),
            final(self).history() == final(self).contents(),
    {
        crate::surface::resize_zero_padded(&mut self.buf, new_length);
        self.cursor = 0;
        self.hist = Ghost(self.buf@);
        assert(self.buf@ =~= Seq::new(
            new_length as nat,
            |j: int|
                if j < old(self).contents().len() {
                    old(self).contents()[j]
                } else {
                    0u32
                },
        ));
    }
}

/// Pure-delay law: with a feedback factor of zero every committed sample is
/// the raw input, so after `i` steps over an input stream the line taps
/// input `i − length`, and silence while `i` is still below the length.
pub proof fn lemma_pure_delay(line: DelayLine, inputs: Seq<u32>, i: int)
    requires
        line.length() > 0,
        0 <= i <= inputs.len(),
        line.history() == inputs.take(i),
    ensures
        line.spec_tap() == if i >= line.length() {
            inputs[i - line.length()]
        } else {
            0u32
        },
{
}

} // verus!
