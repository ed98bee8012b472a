//! The operand stack: one allocation, with a depth naming the top.
//!
//! Every slot at or above the depth holds unit, so a push is a store and a
//! value leaving the stack leaves nothing behind.
use vstd::prelude::*;

use crate::value::{all_views, overwrite, unit, Data, Datum, Dynamic};

verus! {

/// Where one operand is kept. The allocation stays while its value changes, so
/// a slot keeps its address for as long as the stack does.
pub type OperandSlot = Box<Dynamic>;

/// A slot that holds a value.
pub fn operand_slot(value: Dynamic) -> (slot: OperandSlot)
    ensures
        *slot == value,
{
    Box::new(value)
}

/// The value a slot holds.
pub fn operand_ref(slot: &OperandSlot) -> (value: &Dynamic)
    ensures
        *value == **slot,
{
    &**slot
}

/// Put another value in a slot.
pub fn set_operand(slot: &mut OperandSlot, value: Dynamic)
    ensures
        (**final(slot))@ == value@,
{
    overwrite(&mut **slot, value);
}

/// Move the value out of a slot, leaving unit behind.
fn take_operand(slot: &mut OperandSlot) -> (value: Dynamic)
    ensures
        value == **old(slot),
        (**final(slot))@ == unit(),
{
    (**slot).take()
}

/// The operands of a run.
#[derive(Debug)]
pub struct Stack {
    slots: Vec<OperandSlot>,
    depth: usize,
}

/// The stack cut back to its lowest `depth` operands.
pub open spec fn truncated(stack: Seq<Datum>, depth: int) -> Seq<Datum> {
    if depth < stack.len() {
        stack.subrange(0, depth)
    } else {
        stack
    }
}

/// The operands from `first` up.
pub open spec fn above(stack: Seq<Datum>, first: int) -> Seq<Datum> {
    if first < stack.len() {
        stack.subrange(first, stack.len() as int)
    } else {
        Seq::empty()
    }
}

/// `count` unit slots opened at `at`, with what was above them moved up.
pub open spec fn opened(stack: Seq<Datum>, at: int, count: nat) -> Seq<Datum> {
    truncated(stack, at) + Seq::new(count, |i: int| unit()) + above(stack, at)
}

/// The top operand moved down under `under` others.
pub open spec fn rotated(stack: Seq<Datum>, under: int) -> Seq<Datum> {
    let to = stack.len() - 1 - under;
    stack.subrange(0, to).push(stack.last()) + stack.subrange(to, stack.len() - 1)
}

/// The first of `p`, its double, the double of that and so on, that is `n` or
/// more.
pub open spec fn doubled_to(p: nat, n: nat) -> nat
    decreases (if p < n {
        n - p
    } else {
        0
    }),
{
    if p >= n || p == 0 {
        p
    } else {
        doubled_to(2 * p, n)
    }
}

/// How many slots are allocated for `n` operands: the least power of two that is
/// enough, or as many as there are operands where that power is no word.
pub open spec fn slots_for(n: nat) -> nat {
    if doubled_to(1, n) <= usize::MAX {
        doubled_to(1, n)
    } else {
        n
    }
}

/// The slots of an allocation sized anew for `extra` more operands, and for one
/// at least. A count that is no word leaves it as it is.
pub open spec fn resized(room: nat, depth: nat, extra: nat) -> nat {
    let n = if extra == 0 {
        depth + 1
    } else {
        depth + extra
    };
    if n <= usize::MAX {
        slots_for(n)
    } else {
        room
    }
}

/// The slots of an allocation that has room for `extra` more operands: it is
/// sized anew only if it had not.
pub open spec fn reserved(room: nat, depth: nat, extra: nat) -> nat {
    if depth + extra > room {
        resized(room, depth, extra)
    } else {
        room
    }
}

proof fn doubling_is_enough(p: nat, n: nat)
    requires
        p > 0,
    ensures
        doubled_to(p, n) >= n,
    decreases (if p < n {
        n - p
    } else {
        0
    }),
{
    if p < n {
        doubling_is_enough(2 * p, n);
    }
}

proof fn doubling_stops_early(p: nat, n: nat)
    requires
        0 < p < n,
    ensures
        doubled_to(p, n) < 2 * n,
    decreases n - p,
{
    if 2 * p < n {
        doubling_stops_early(2 * p, n);
    } else {
        reveal_with_fuel(doubled_to, 2);
    }
}

/// Slots are enough for the operands they are allocated for, and fewer than
/// twice as many.
pub proof fn slots_are_few(n: nat)
    ensures
        n <= slots_for(n),
        n > 0 ==> slots_for(n) < 2 * n,
{
    doubling_is_enough(1, n);
    if n > 1 {
        doubling_stops_early(1, n);
    }
}

/// How many slots are allocated for `n` operands.
fn slot_count(n: usize) -> (slots: usize)
    ensures
        slots == slots_for(n as nat),
        slots >= n,
{
    let mut p: usize = 1;
    proof {
        doubling_is_enough(1, n as nat);
    }
    while p < n
        invariant
            p > 0,
            doubled_to(1, n as nat) == doubled_to(p as nat, n as nat),
            doubled_to(1, n as nat) >= n,
        decreases (if p < n {
            n - p
        } else {
            0
        }),
    {
        if p > usize::MAX / 2 {
            proof {
                reveal_with_fuel(doubled_to, 2);
            }
            return n;
        }
        p = 2 * p;
    }
    p
}

impl Stack {
    /// The depth is inside the allocation, and nothing is left above it.
    pub closed spec fn wf(&self) -> bool {
        &&& self.depth <= self.slots@.len()
        &&& forall|i: int|
            self.depth <= i < self.slots@.len() ==> (#[trigger] self.slots@[i])@ == unit()
    }

    /// The operands, lowest first.
    pub closed spec fn view(self) -> Seq<Datum> {
        Seq::new(self.depth as nat, |i: int| self.slots@[i]@)
    }

    /// The operands fit into the allocation.
    pub proof fn fits(&self)
        requires
            self.wf(),
        ensures
            self@.len() <= self.room(),
    {
    }

    /// No operands.
    pub fn new() -> (stack: Stack)
        ensures
            stack.wf(),
            stack@ == Seq::<Datum>::empty(),
            stack.room() == 0,
    {
        let stack = Stack { slots: Vec::new(), depth: 0 };
        assert(stack@ =~= Seq::<Datum>::empty());
        stack
    }

    /// How many operands there are.
    pub fn depth(&self) -> (n: usize)
        requires
            self.wf(),
        ensures
            n == self@.len(),
    {
        self.depth
    }

    /// Whether no slot of the allocation holds a value, in use or not.
    pub closed spec fn vacant(&self) -> bool {
        forall|i: int|
            0 <= i < self.slots@.len() ==> (#[trigger] self.slots@[i])@.data == Data::Unit
    }

    /// Whether no slot of the allocation holds a value.
    pub fn holds_nothing(&self) -> (r: bool)
        ensures
            r == self.vacant(),
            self.wf() && self@.len() == 0 ==> r,
    {
        let mut i: usize = 0;
        while i < self.slots.len()
            invariant
                i <= self.slots@.len(),
                forall|j: int| 0 <= j < i ==> (#[trigger] self.slots@[j])@.data == Data::Unit,
            decreases self.slots@.len() - i,
        {
            if !operand_ref(&self.slots[i]).is_unit() {
                return false;
            }
            i = i + 1;
        }
        true
    }

    /// How many slots the allocation has.
    pub closed spec fn room(&self) -> nat {
        self.slots@.len()
    }

    /// How many slots the allocation has, in use or not.
    pub fn allocated(&self) -> (n: usize)
        requires
            self.wf(),
        ensures
            n == self.room(),
            n >= self@.len(),
    {
        self.slots.len()
    }

    /// Make the allocation `want` slots, with the ones it gains holding unit.
    fn resize(&mut self, want: usize)
        requires
            old(self).wf(),
            want >= old(self)@.len(),
        ensures
            final(self).wf(),
            final(self)@ == old(self)@,
            final(self).room() == want,
    {
        self.slots.truncate(want);
        while self.slots.len() < want
            invariant
                self.wf(),
                self.depth == old(self).depth,
                self.slots@.len() <= want,
                forall|i: int|
                    0 <= i < self.depth ==> #[trigger] self.slots@[i] == old(self).slots@[i],
            decreases want - self.slots.len(),
        {
            self.slots.push(operand_slot(Dynamic::unit()));
        }
        assert(self@ =~= old(self)@);
    }

    /// Size the allocation for `extra` more operands, and for one at least.
    pub fn grow_stack(&mut self, extra: usize)
        requires
            old(self).wf(),
        ensures
            final(self).wf(),
            final(self)@ == old(self)@,
            final(self).room() == resized(old(self).room(), old(self)@.len(), extra as nat),
    {
        let more: usize = if extra == 0 {
            1
        } else {
            extra
        };
        if more <= usize::MAX - self.depth {
            self.resize(slot_count(self.depth + more));
        }
    }

    /// Make room for `extra` more operands.
    pub fn reserve(&mut self, extra: usize)
        requires
            old(self).wf(),
        ensures
            final(self).wf(),
            final(self)@ == old(self)@,
            final(self).room() == reserved(old(self).room(), old(self)@.len(), extra as nat),
    {
        if extra > self.slots.len() - self.depth {
            self.grow_stack(extra);
        }
    }

    /// Put a value on top.
    pub fn push(&mut self, value: Dynamic)
        requires
            old(self).wf(),
        ensures
            final(self).wf(),
            final(self)@ == old(self)@.push(value@),
            final(self).room() == reserved(old(self).room(), old(self)@.len(), 1),
    {
        let depth: usize = self.depth;
        if depth == self.slots.len() {
            self.slots.push(operand_slot(value));
            let room: usize = self.slots.len();
            self.depth = room;
            assert(self@ =~= old(self)@.push(value@));
            self.resize(slot_count(room));
        } else {
            set_operand(&mut self.slots[depth], value);
            self.depth = depth + 1;
            assert(self@ =~= old(self)@.push(value@));
        }
    }

    /// Put a row of values on top, the first lowest.
    pub fn push_all(&mut self, values: Vec<Dynamic>)
        requires
            old(self).wf(),
        ensures
            final(self).wf(),
            final(self)@ == old(self)@ + all_views(values@),
            final(self).room() == reserved(old(self).room(), old(self)@.len(), values@.len()),
    {
        let mut values = values;
        let ghost row = all_views(values@);
        let ghost before = self@;
        let mut reversed: Vec<Dynamic> = Vec::new();
        let count: usize = values.len();
        while values.len() > 0
            invariant
                values@.len() + reversed@.len() == count,
                count == row.len(),
                forall|j: int| 0 <= j < values@.len() ==> (#[trigger] values@[j])@ == row[j],
                forall|j: int|
                    0 <= j < reversed@.len() ==> (#[trigger] reversed@[j])@ == row[count - 1 - j],
            decreases values@.len(),
        {
            if let Some(value) = values.pop() {
                reversed.push(value);
            }
        }
        self.reserve(count);
        let ghost room = self.room();
        assert(before.len() + count <= usize::MAX ==> before.len() + count <= room) by {
            doubling_is_enough(1, (before.len() + count) as nat);
        }
        while reversed.len() > 0
            invariant
                self.wf(),
                before.len() + count <= usize::MAX ==> before.len() + count <= room && self.room()
                    == room,
                reversed@.len() <= count,
                count == row.len(),
                self@ == before + row.subrange(0, count - reversed@.len()),
                forall|j: int|
                    0 <= j < reversed@.len() ==> (#[trigger] reversed@[j])@ == row[count - 1 - j],
            decreases reversed@.len(),
        {
            let ghost left = reversed@.len();
            if let Some(value) = reversed.pop() {
                assert(value@ == row[count - left]);
                self.push(value);
                assert(self@ =~= before + row.subrange(0, count - left + 1));
            }
        }
        assert(self@ =~= before + row);
    }

    /// Take the top operand.
    pub fn pop(&mut self) -> (value: Option<Dynamic>)
        requires
            old(self).wf(),
        ensures
            final(self).wf(),
            old(self)@.len() == 0 ==> value is None && final(self)@ == old(self)@,
            old(self)@.len() > 0 ==> value is Some && value->0@ == old(self)@.last()
                && final(self)@ == old(self)@.drop_last(),
            final(self).room() == old(self).room(),
    {
        if self.depth == 0 {
            return None;
        }
        self.depth = self.depth - 1;
        let value = take_operand(&mut self.slots[self.depth]);
        assert(self@ =~= old(self)@.drop_last());
        Some(value)
    }

    /// Drop operands, down to `depth` of them.
    pub fn truncate(&mut self, depth: usize)
        requires
            old(self).wf(),
        ensures
            final(self).wf(),
            final(self)@ == truncated(old(self)@, depth as int),
            final(self).room() == old(self).room(),
    {
        if depth >= self.depth {
            return;
        }
        let mut slot: usize = depth;
        while slot < self.depth
            invariant
                depth <= slot <= self.depth,
                self.depth == old(self).depth,
                self.depth <= self.slots@.len(),
                self.slots@.len() == old(self).slots@.len(),
                old(self).wf(),
                forall|i: int| 0 <= i < depth ==> #[trigger] self.slots@[i] == old(self).slots@[i],
                forall|i: int|
                    depth <= i < self.slots@.len() && (i < slot || i >= self.depth)
                        ==> (#[trigger] self.slots@[i])@ == unit(),
            decreases self.depth - slot,
        {
            set_operand(&mut self.slots[slot], Dynamic::unit());
            slot = slot + 1;
        }
        self.depth = depth;
        assert(self@ =~= truncated(old(self)@, depth as int));
    }

    /// Move the operands from `first` up off the stack.
    pub fn take_values_from(&mut self, first: usize) -> (taken: Vec<Dynamic>)
        requires
            old(self).wf(),
        ensures
            final(self).wf(),
            all_views(taken@) == above(old(self)@, first as int),
            final(self)@ == truncated(old(self)@, first as int),
            final(self).room() == old(self).room(),
    {
        let mut taken: Vec<Dynamic> = Vec::new();
        if first >= self.depth {
            assert(all_views(taken@) =~= Seq::<Datum>::empty());
            return taken;
        }
        let mut slot: usize = first;
        while slot < self.depth
            invariant
                first <= slot <= self.depth,
                self.depth == old(self).depth,
                self.depth <= self.slots@.len(),
                self.slots@.len() == old(self).slots@.len(),
                old(self).wf(),
                taken@.len() == slot - first,
                forall|i: int|
                    0 <= i < taken@.len() ==> #[trigger] taken@[i] == *old(self).slots@[first + i],
                forall|i: int| 0 <= i < first ==> #[trigger] self.slots@[i] == old(self).slots@[i],
                forall|i: int|
                    slot <= i < self.depth ==> #[trigger] self.slots@[i] == old(self).slots@[i],
                forall|i: int|
                    first <= i < self.slots@.len() && (i < slot || i >= self.depth)
                        ==> (#[trigger] self.slots@[i])@ == unit(),
            decreases self.depth - slot,
        {
            let value = take_operand(&mut self.slots[slot]);
            taken.push(value);
            slot = slot + 1;
        }
        self.depth = first;
        assert(self@ =~= truncated(old(self)@, first as int));
        assert(all_views(taken@) =~= above(old(self)@, first as int));
        taken
    }

    /// Open `count` slots at `at`, moving whatever is above them up.
    pub fn open_slots(&mut self, at: usize, count: usize)
        requires
            old(self).wf(),
            at <= old(self)@.len(),
        ensures
            final(self).wf(),
            final(self)@ == opened(old(self)@, at as int, count as nat),
            final(self).room() == reserved(old(self).room(), old(self)@.len(), count as nat),
    {
        let ghost before = self@;
        self.reserve(count);
        let ghost room = self.room();
        assert(before.len() + count <= usize::MAX ==> before.len() + count <= room) by {
            doubling_is_enough(1, (before.len() + count) as nat);
        }
        let moved = self.take_values_from(at);
        let mut i: usize = 0;
        while i < count
            invariant
                i <= count,
                self.wf(),
                before.len() + count <= usize::MAX ==> before.len() + count <= room && self.room()
                    == room,
                at <= before.len(),
                self@ == truncated(before, at as int) + Seq::new(i as nat, |j: int| unit()),
            decreases count - i,
        {
            self.push(Dynamic::unit());
            i = i + 1;
            assert(self@ =~= truncated(before, at as int) + Seq::new(i as nat, |j: int| unit()));
        }
        let ghost above_at = all_views(moved@);
        self.push_all(moved);
        proof {
            assert(above_at.len() == before.len() - at);
            assert(self@.len() == before.len() + count);
            assert(self@.len() == self.depth);
        }
    }

    /// An operand.
    pub fn get(&self, i: usize) -> (value: &Dynamic)
        requires
            self.wf(),
            i < self@.len(),
        ensures
            value@ == self@[i as int],
    {
        operand_ref(&self.slots[i])
    }

    /// What a slot of the allocation holds: an operand, or unit above the top.
    pub fn slot(&self, i: usize) -> (value: &Dynamic)
        requires
            self.wf(),
            i < self.room(),
        ensures
            value@ == (if i < self@.len() {
                self@[i as int]
            } else {
                unit()
            }),
    {
        operand_ref(&self.slots[i])
    }

    /// Replace an operand.
    pub fn set(&mut self, i: usize, value: Dynamic)
        requires
            old(self).wf(),
            i < old(self)@.len(),
        ensures
            final(self).wf(),
            final(self)@ == old(self)@.update(i as int, value@),
            final(self).room() == old(self).room(),
    {
        set_operand(&mut self.slots[i], value);
        assert(self@ =~= old(self)@.update(i as int, value@));
    }

    /// Move an operand out of its slot, leaving unit behind.
    pub fn take(&mut self, i: usize) -> (value: Dynamic)
        requires
            old(self).wf(),
            i < old(self)@.len(),
        ensures
            final(self).wf(),
            value@ == old(self)@[i as int],
            final(self)@ == old(self)@.update(i as int, unit()),
            final(self).room() == old(self).room(),
    {
        let value = take_operand(&mut self.slots[i]);
        assert(self@ =~= old(self)@.update(i as int, unit()));
        value
    }

    /// Move the top operand down under `under` others.
    pub fn rotate(&mut self, under: usize)
        requires
            old(self).wf(),
            under < old(self)@.len(),
        ensures
            final(self).wf(),
            final(self)@ == rotated(old(self)@, under as int),
            final(self).room() == old(self).room(),
    {
        let ghost before = self@;
        if let Some(top) = self.pop() {
            let to: usize = self.depth() - under;
            let moved = self.take_values_from(to);
            self.push(top);
            self.push_all(moved);
            assert(self@ =~= rotated(before, under as int));
        }
    }
}

/// Taking off what was just put on gives it back and leaves the rest alone.
pub proof fn push_then_pop(stack: Seq<Datum>, value: Datum)
    ensures
        stack.push(value).last() == value,
        stack.push(value).drop_last() == stack,
{
    assert(stack.push(value).drop_last() =~= stack);
}

/// Opening no slots changes nothing, and opening some keeps every operand.
pub proof fn opening_keeps_operands(stack: Seq<Datum>, at: int, count: nat)
    requires
        0 <= at <= stack.len(),
    ensures
        opened(stack, at, 0) == stack,
        opened(stack, at, count).len() == stack.len() + count,
        forall|i: int| 0 <= i < at ==> opened(stack, at, count)[i] == stack[i],
        forall|i: int| at <= i < stack.len() ==> opened(stack, at, count)[i + count] == stack[i],
{
    assert(opened(stack, at, 0) =~= stack);
}

} // verus!
