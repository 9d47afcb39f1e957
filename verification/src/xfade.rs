//! Double-buffer crossfade engine for the reversed "popback" effect.
//!
//! Two equal-length buffers alternate roles: one records the incoming block
//! while the other, recorded during the previous block, plays back in
//! reverse. A shared cursor addresses both; when it reaches the end of the
//! recording buffer the roles swap and the cursor resets — that rollover is
//! the only transition. The raw reversed sample the engine emits is weighted
//! and mixed with the dry input by the adapter, which owns the fade and gain
//! arithmetic.

use vstd::prelude::*;

verus! {

/// The render path's view of a swap pair: both surfaces and the shared
/// cursor.
pub struct FadeView {
    /// The buffer the current block is being recorded into.
    pub recording: Seq<u32>,
    /// The buffer recorded during the previous block, played back in reverse.
    pub playback: Seq<u32>,
    /// The offset within the block that the next step addresses.
    pub position: int,
}

/// One render step of the engine: swap and reset at a block boundary, then
/// record the input at the cursor, emit the time-reversed playback sample,
/// and advance. The result pairs the new state with the raw wet sample.
pub open spec fn fade_step(s: FadeView, input: u32) -> (FadeView, u32) {
    let l = s.recording.len() as int;
    if s.position == l {
        (
            FadeView { recording: s.playback.update(0, input), playback: s.recording, position: 1 },
            s.recording[l - 1],
        )
    } else {
        (
            FadeView {
                recording: s.recording.update(s.position, input),
                playback: s.playback,
                position: s.position + 1,
            },
            s.playback[l - 1 - s.position],
        )
    }
}

/// The engine run over a whole sequence of inputs: the final state and the
/// raw wet sample emitted at each step.
pub open spec fn fade_run(s: FadeView, inputs: Seq<u32>) -> (FadeView, Seq<u32>)
    decreases inputs.len(),
{
    if inputs.len() == 0 {
        (s, Seq::empty())
    } else {
        let first = fade_step(s, inputs[0]);
        let rest = fade_run(first.0, inputs.subrange(1, inputs.len() as int));
        (rest.0, seq![first.1] + rest.1)
    }
}

/// Two equal-length record/playback surfaces with a shared cursor.
pub struct SwapPair {
    rec: Vec<u32>,
    play: Vec<u32>,
    idx: usize,
}

impl SwapPair {
    /// The state the contracts speak about.
    pub closed spec fn view(self) -> FadeView {
        FadeView { recording: self.rec@, playback: self.play@, position: self.idx as int }
    }

    /// The common length of both buffers, in samples.
    pub open spec fn length(self) -> int {
        self.view().recording.len() as int
    }

    /// The offset within the block that the next step addresses.
    pub open spec fn position(self) -> int {
        self.view().position
    }

    /// Both surfaces are the same length and the cursor never runs past the
    /// block boundary.
    pub open spec fn wf(self) -> bool {
        &&& self.view().recording.len() == self.view().playback.len()
        &&& 0 <= self.view().position <= self.length()
    }

    /// A pair of `length`-sample buffers of silence, cursor at the start.
    pub fn new(length: usize) -> (pair: Self)
        ensures
            pair.wf(),
            pair.length() == length,
            pair.position() == 0,
            pair.view().recording == Seq::new(length as nat, |j: int| 0u32),
            pair.view().playback == Seq::new(length as nat, |j: int| 0u32),
    {
        let mut rec: Vec<u32> = Vec::new();
        let mut play: Vec<u32> = Vec::new();
        let mut i: usize = 0;
        while i < length
            invariant
                i <= length,
                rec@ == Seq::new(i as nat, |j: int| 0u32),
                play@ == Seq::new(i as nat, |j: int| 0u32),
            decreases length - i,
        {
            rec.push(0);
            play.push(0);
            i = i + 1;
            assert(rec@ =~= Seq::new(i as nat, |j: int| 0u32));
            assert(play@ =~= Seq::new(i as nat, |j: int| 0u32));
        }
        SwapPair { rec, play, idx: 0 }
    }

    /// The common length of both buffers, in samples.
    pub fn len(&self) -> (n: usize)
        ensures
            n == self.length(),
    {
        self.rec.len()
    }

    /// One render step: at a block boundary the surfaces swap roles and the
    /// cursor resets; then the input is recorded at the cursor and the
    /// time-reversed playback sample is emitted. The result carries the raw
    /// wet sample and the block offset it was emitted at, which the adapter
    /// needs for the fade weight.
    pub fn step(&mut self, input: u32) -> (r: (u32, usize))
        requires
            old(self).wf(),
            old(self).length() > 0,
        ensures
            final(self).wf(),
            final(self).length() == old(self).length(),
            final(self).view() == fade_step(old(self).view(), input).0,
            r.0 == fade_step(old(self).view(), input).1,
            r.1 as int == if old(self).position() == old(self).length() {
                0int
            } else {
                old(self).position()
            },
            r.1 < old(self).length(),
    {
        if self.idx >= self.rec.len() {
            std::mem::swap(&mut self.rec, &mut self.play);
            self.idx = 0;
        }
        let i: usize = self.idx;
        self.rec[i] = input;
        let wet: u32 = self.play[self.play.len() - 1 - i];
        self.idx = i + 1;
        (wet, i)
    }

    /// Change the block length: both surfaces keep their leading samples,
    /// grow with silence, and the cursor resets, discarding any in-flight
    /// recording.
    pub fn resize(&mut self, new_length: usize)
        requires
            old(self).wf(),
        ensures
            final(self).wf(),
            final(self).length() == new_length,
            final(self).position() == 0,
            final(self).view().recording == Seq::new(
                new_length as nat,
                |j: int|
                    if j < old(self).view().recording.len() {
                        old(self).view().recording[j]
                    } else {
                        0u32
                    },
            ),
            final(self).view().playback == Seq::new(
                new_length as nat,
                |j: int|
                    if j < old(self).view().playback.len() {
                        old(self).view().playback[j]
                    } else {
                        0u32
                    },
            ),
    {
        crate::surface::resize_zero_padded(&mut self.rec, new_length);
        crate::surface::resize_zero_padded(&mut self.play, new_length);
        self.idx = 0;
        assert(self.rec@ =~= Seq::new(
            new_length as nat,
            |j: int|
                if j < old(self).view().recording.len() {
                    old(self).view().recording[j]
                } else {
                    0u32
                },
        ));
        assert(self.play@ =~= Seq::new(
            new_length as nat,
            |j: int|
                if j < old(self).view().playback.len() {
                    old(self).view().playback[j]
                } else {
                    0u32
                },
        ));
    }
}

proof fn lemma_fade_run_in_phase(s: FadeView, inputs: Seq<u32>)
    requires
        s.recording.len() == s.playback.len(),
        0 <= s.position,
        s.position + inputs.len() == s.recording.len(),
    ensures
        ({
            let r = fade_run(s, inputs);
            &&& r.0.playback == s.playback
            &&& r.0.recording.len() == s.recording.len()
            &&& r.0.position == s.recording.len()
            &&& forall|j: int| 0 <= j < s.position ==> r.0.recording[j] == s.recording[j]
            &&& forall|j: int|
                s.position <= j < s.recording.len() ==> r.0.recording[j] == inputs[j - s.position]
            &&& r.1.len() == inputs.len()
            &&& forall|j: int|
                0 <= j < inputs.len() ==> r.1[j] == s.playback[s.recording.len() - 1 - (s.position
                    + j)]
        }),
    decreases inputs.len(),
{
    if inputs.len() > 0 {
        let first = fade_step(s, inputs[0]);
        let tail = inputs.subrange(1, inputs.len() as int);
        lemma_fade_run_in_phase(first.0, tail);
        let rest = fade_run(first.0, tail);
        let r = fade_run(s, inputs);
        assert(r == (rest.0, seq![first.1] + rest.1));
        assert(first.0.position == s.position + 1);
        assert forall|j: int| 0 <= j < s.position implies r.0.recording[j] == s.recording[j] by {
            assert(rest.0.recording[j] == first.0.recording[j]);
        }
        assert forall|j: int|
            s.position <= j < s.recording.len() implies r.0.recording[j] == inputs[j - s.position]
        by {
            if j == s.position {
                assert(rest.0.recording[j] == first.0.recording[j]);
            } else {
                assert(rest.0.recording[j] == tail[j - first.0.position]);
            }
        }
        assert forall|j: int|
            0 <= j < inputs.len() implies r.1[j] == s.playback[s.recording.len() - 1 - (s.position
            + j)] by {
            if j > 0 {
                assert(r.1[j] == rest.1[j - 1]);
                assert(rest.1[j - 1] == first.0.playback[first.0.recording.len() - 1 - (
                first.0.position + (j - 1))]);
            }
        }
    }
}

/// Phase reversal: from a block boundary, one full block of fresh inputs
/// plays the block recorded during the previous phase backwards — the raw
/// wet sample emitted at offset `j` is the sample recorded at offset
/// `length − 1 − j` — while the fresh block is recorded for the phase after.
pub proof fn lemma_phase_reversal(s: FadeView, inputs: Seq<u32>)
    requires
        s.recording.len() == s.playback.len(),
        s.recording.len() > 0,
        s.position == s.recording.len(),
        inputs.len() == s.recording.len(),
    ensures
        ({
            let r = fade_run(s, inputs);
            &&& r.1.len() == s.recording.len()
            &&& forall|j: int|
                0 <= j < inputs.len() ==> r.1[j] == s.recording[s.recording.len() - 1 - j]
            &&& r.0.recording == inputs
            &&& r.0.playback == s.recording
            &&& r.0.position == s.recording.len()
        }),
{
    let first = fade_step(s, inputs[0]);
    let tail = inputs.subrange(1, inputs.len() as int);
    lemma_fade_run_in_phase(first.0, tail);
    let rest = fade_run(first.0, tail);
    let r = fade_run(s, inputs);
    assert(r == (rest.0, seq![first.1] + rest.1));
    assert(first.0.position == 1);
    assert(first.0.playback == s.recording);
    assert forall|j: int|
        0 <= j < inputs.len() implies r.1[j] == s.recording[s.recording.len() - 1 - j]
    by {
        if j > 0 {
            assert(r.1[j] == rest.1[j - 1]);
            assert(rest.1[j - 1] == first.0.playback[first.0.recording.len() - 1 - (
            first.0.position + (j - 1))]);
        }
    }
    assert forall|j: int| 0 <= j < inputs.len() implies r.0.recording[j] == inputs[j] by {
        if j == 0 {
            assert(rest.0.recording[j] == first.0.recording[j]);
        } else {
            assert(rest.0.recording[j] == tail[j - first.0.position]);
        }
    }
    assert(r.0.recording =~= inputs);
}

} // verus!
