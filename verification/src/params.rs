//! Control-parameter handoff between the control surface and the render path.
//!
//! A `ParamTransfer` holds one normalized control value per slot together
//! with a mark that records whether the slot changed since the render path
//! last looked. Writes to the same slot coalesce to the latest value; a drain
//! hands every changed slot back exactly once, in ascending slot order, and
//! clears the marks. Values are carried as opaque 32-bit encodings of the
//! host's normalized parameters.

use vstd::prelude::*;

verus! {

/// The entries a drain hands back when the first `upto` slots hold the given
/// values and marks: slots are visited in ascending index order and only
/// marked slots contribute an entry.
pub open spec fn pending_list(values: Seq<u32>, marks: Seq<bool>, upto: int) -> Seq<(usize, u32)>
    decreases upto,
{
    if upto <= 0 {
        Seq::empty()
    } else {
        pending_list(values, marks, upto - 1) + if marks[upto - 1] {
            seq![((upto - 1) as usize, values[upto - 1])]
        } else {
            Seq::empty()
        }
    }
}

/// A set of control slots: the control surface writes them, the render path
/// drains them.
///
/// What is verified here is the transfer's slot semantics — which value each
/// slot carries, last-write-wins coalescing, and the exactly-once ascending
/// drain. Carrying writes between threads is the host adapter's concern and
/// lies outside these contracts.
pub struct ParamTransfer {
    values: Vec<u32>,
    marks: Vec<bool>,
}

impl ParamTransfer {
    /// One stored value per slot, in slot order.
    pub closed spec fn slot_values(self) -> Seq<u32> {
        self.values@
    }

    /// Which slots changed since the last drain, in slot order.
    pub closed spec fn pending_marks(self) -> Seq<bool> {
        self.marks@
    }

    /// How many slots the transfer was created with.
    pub open spec fn slot_count(self) -> int {
        self.slot_values().len() as int
    }

    /// Each slot has both a value and a mark.
    pub closed spec fn wf(self) -> bool {
        self.values@.len() == self.marks@.len()
    }

    /// A transfer with `slots` slots, every value zero and nothing pending.
    pub fn new(slots: usize) -> (t: Self)
        ensures
            t.wf(),
            t.slot_count() == slots,
            t.slot_values() == Seq::new(slots as nat, |i: int| 0u32),
            t.pending_marks() == Seq::new(slots as nat, |i: int| false),
    {
        let mut values: Vec<u32> = Vec::new();
        let mut marks: Vec<bool> = Vec::new();
        let mut i: usize = 0;
        while i < slots
            invariant
                i <= slots,
                values@ == Seq::new(i as nat, |j: int| 0u32),
                marks@ == Seq::new(i as nat, |j: int| false),
            decreases slots - i,
        {
            values.push(0);
            marks.push(false);
            i = i + 1;
            assert(values@ =~= Seq::new(i as nat, |j: int| 0u32));
            assert(marks@ =~= Seq::new(i as nat, |j: int| false));
        }
        ParamTransfer { values, marks }
    }

    /// Number of slots.
    pub fn len(&self) -> (n: usize)
        ensures
            n == self.slot_count(),
    {
        self.values.len()
    }

    /// Store a new value for a slot and mark it pending, overwriting any value
    /// not yet drained. A write to an unknown slot is ignored.
    pub fn set(&mut self, index: usize, value: u32)
        requires
            old(self).wf(),
        ensures
            final(self).wf(),
            index < old(self).slot_count() ==> {
                &&& final(self).slot_values() == old(self).slot_values().update(
                    index as int,
                    value,
                )
                &&& final(self).pending_marks() == old(self).pending_marks().update(
                    index as int,
                    true,
                )
            },
            index >= old(self).slot_count() ==> *final(self) == *old(self),
    {
        if index < self.values.len() {
            self.values[index] = value;
            self.marks[index] = true;
        }
    }

    /// Read a slot's current value without touching its mark. An unknown slot
    /// reads as zero.
    pub fn get(&self, index: usize) -> (value: u32)
        requires
            self.wf(),
        ensures
            value == if index < self.slot_count() {
                self.slot_values()[index as int]
            } else {
                0u32
            },
    {
        if index < self.values.len() {
            self.values[index]
        } else {
            0
        }
    }

    /// Hand back every slot that changed since the last drain, each exactly
    /// once with its latest value, in ascending slot order, and clear every
    /// mark. Values stay in place, so `get` still sees them.
    pub fn drain_all(&mut self) -> (pending: Vec<(usize, u32)>)
        requires
            old(self).wf(),
        ensures
            final(self).wf(),
            final(self).slot_values() == old(self).slot_values(),
            final(self).pending_marks() == Seq::new(old(self).slot_count() as nat, |i: int| false),
            pending@ == pending_list(
                old(self).slot_values(),
                old(self).pending_marks(),
                old(self).slot_count(),
            ),
    {
        let mut pending: Vec<(usize, u32)> = Vec::new();
        let mut i: usize = 0;
        let n: usize = self.values.len();
        while i < n
            invariant
                old(self).wf(),
                i <= n,
                n == old(self).slot_count(),
                self.values@ == old(self).slot_values(),
                self.marks@.len() == n,
                forall|j: int|
                    0 <= j < n ==> self.marks@[j] == if j < i {
                        false
                    } else {
                        old(self).pending_marks()[j]
                    },
                pending@ == pending_list(
                    old(self).slot_values(),
                    old(self).pending_marks(),
                    i as int,
                ),
            decreases n - i,
        {
            if self.marks[i] {
                pending.push((i, self.values[i]));
                self.marks[i] = false;
            }
            i = i + 1;
        }
        assert(self.marks@ =~= Seq::new(old(self).slot_count() as nat, |i: int| false));
        pending
    }
}

/// Every entry a drain hands back names a slot below `upto`, and entries come
/// in strictly ascending slot order.
pub proof fn lemma_pending_list_sorted(values: Seq<u32>, marks: Seq<bool>, upto: int)
    requires
        upto <= usize::MAX,
    ensures
        forall|a: int|
            0 <= a < pending_list(values, marks, upto).len() ==> (#[trigger] pending_list(
                values,
                marks,
                upto,
            )[a]).0 < upto,
        forall|a: int, b: int|
            0 <= a < b < pending_list(values, marks, upto).len() ==> pending_list(
                values,
                marks,
                upto,
            )[a].0 < pending_list(values, marks, upto)[b].0,
    decreases upto,
{
    if upto > 0 {
        lemma_pending_list_sorted(values, marks, upto - 1);
        let prev = pending_list(values, marks, upto - 1);
        let cur = pending_list(values, marks, upto);
        assert forall|a: int| 0 <= a < cur.len() implies (#[trigger] cur[a]).0 < upto by {
            if a < prev.len() {
                assert(cur[a] == prev[a]);
            }
        }
        assert forall|a: int, b: int| 0 <= a < b < cur.len() implies cur[a].0 < cur[b].0 by {
            assert(cur[a] == prev[a]);
            if b < prev.len() {
                assert(cur[b] == prev[b]);
            }
        }
    }
}

/// Coalescing: writing a slot twice leaves exactly the state of the second
/// write alone, so intermediate values are never replayed.
pub proof fn lemma_set_coalesces(values: Seq<u32>, marks: Seq<bool>, i: int, v1: u32, v2: u32)
    requires
        0 <= i < values.len(),
        0 <= i < marks.len(),
    ensures
        values.update(i, v1).update(i, v2) == values.update(i, v2),
        marks.update(i, true).update(i, true) == marks.update(i, true),
{
    assert(values.update(i, v1).update(i, v2) =~= values.update(i, v2));
    assert(marks.update(i, true).update(i, true) =~= marks.update(i, true));
}

/// The slot state left behind by a run of writes to one slot, first write
/// first: each lands on the same slot and marks it pending.
pub open spec fn apply_writes(values: Seq<u32>, marks: Seq<bool>, i: int, writes: Seq<u32>) -> (
    Seq<u32>,
    Seq<bool>,
)
    decreases writes.len(),
{
    if writes.len() == 0 {
        (values, marks)
    } else {
        apply_writes(
            values.update(i, writes[0]),
            marks.update(i, true),
            i,
            writes.subrange(1, writes.len() as int),
        )
    }
}

/// Coalescing in general: however many writes hit one slot before a drain,
/// the state is exactly that of the last write alone — so a drain yields one
/// entry for the slot, carrying the last value, never one entry per write.
pub proof fn lemma_writes_coalesce(values: Seq<u32>, marks: Seq<bool>, i: int, writes: Seq<u32>)
    requires
        0 <= i < values.len(),
        0 <= i < marks.len(),
        writes.len() >= 1,
    ensures
        apply_writes(values, marks, i, writes) == (
            values.update(i, writes.last()),
            marks.update(i, true),
        ),
    decreases writes.len(),
{
    let tail = writes.subrange(1, writes.len() as int);
    if writes.len() == 1 {
        assert(apply_writes(values.update(i, writes[0]), marks.update(i, true), i, tail) == (
            values.update(i, writes[0]),
            marks.update(i, true),
        ));
    } else {
        lemma_writes_coalesce(values.update(i, writes[0]), marks.update(i, true), i, tail);
        assert(tail.last() == writes.last());
        lemma_set_coalesces(values, marks, i, writes[0], writes.last());
    }
}

proof fn lemma_pending_list_single_upto(values: Seq<u32>, marks: Seq<bool>, i: int, upto: int)
    requires
        0 <= i < values.len(),
        forall|j: int| 0 <= j < marks.len() ==> (marks[j] <==> j == i),
        upto <= values.len(),
        upto <= marks.len(),
    ensures
        pending_list(values, marks, upto) == if i < upto {
            seq![(i as usize, values[i])]
        } else {
            Seq::<(usize, u32)>::empty()
        },
    decreases upto,
{
    if upto > 0 {
        lemma_pending_list_single_upto(values, marks, i, upto - 1);
        if i == upto - 1 {
            assert(pending_list(values, marks, upto) =~= seq![(i as usize, values[i])]);
        }
    }
}

/// When slot `i` is the only marked slot — however many writes put it there —
/// a drain hands back exactly one entry, carrying the latest value.
pub proof fn lemma_drain_single(values: Seq<u32>, marks: Seq<bool>, i: int)
    requires
        values.len() == marks.len(),
        0 <= i < values.len(),
        forall|j: int| 0 <= j < marks.len() ==> (marks[j] <==> j == i),
    ensures
        pending_list(values, marks, values.len() as int) == seq![(i as usize, values[i])],
{
    lemma_pending_list_single_upto(values, marks, i, values.len() as int);
}

/// A drain clears every mark, so a second drain with no intervening write
/// hands back nothing.
pub proof fn lemma_drain_idempotent(values: Seq<u32>, upto: int)
    requires
        upto <= values.len(),
    ensures
        pending_list(values, Seq::new(values.len(), |i: int| false), upto) == Seq::<(
            usize,
            u32,
        )>::empty(),
    decreases upto,
{
    if upto > 0 {
        lemma_drain_idempotent(values, upto - 1);
        assert(!Seq::new(values.len(), |i: int| false)[upto - 1]);
    }
}

} // verus!
