//! The coordinate of a node: descriptor set, slot within the set, and byte
//! offset within the buffer bound at that slot.

use vstd::prelude::*;

verus! {

/// One amount per resource category: bytes of uniform data, descriptor slots,
/// and descriptor sets. It serves for sizes, strides and local offsets alike.
#[derive(Clone, Copy, Debug, PartialEq, Eq, Structural)]
pub struct Amounts {
    pub uniform: usize,
    pub slot: usize,
    pub set: usize,
}

impl Amounts {
    /// No amount in any category.
    pub fn zero() -> (a: Amounts)
        ensures
            a == (Amounts { uniform: 0, slot: 0, set: 0 }),
    {
        Amounts { uniform: 0, slot: 0, set: 0 }
    }
}

/// The coordinate of a node of the layout tree.
///
/// `set` and `slot` are the visible indices. The two accumulators are the raw
/// sums of local offsets on the way down; a visible index is a snapshot of its
/// accumulator, taken when a node opens a new set or slot.
#[derive(Clone, Copy, Debug, PartialEq, Eq, Structural)]
pub struct Offset {
    pub set: usize,
    pub set_accumulator: usize,
    pub slot: usize,
    pub slot_accumulator: usize,
    pub uniform: usize,
}

/// The set accumulator after a step: the raw sum, whatever the node opens.
pub open spec fn step_set_accumulator(parent: Offset, set_delta: int) -> int {
    parent.set_accumulator + set_delta
}

/// The set after a step: the accumulator where the node opens a set, the
/// parent's set otherwise.
pub open spec fn step_set(parent: Offset, set_delta: int, opens_set: bool) -> int {
    if opens_set {
        step_set_accumulator(parent, set_delta)
    } else {
        parent.set as int
    }
}

/// The slot accumulator after a step: back at zero where the set has
/// changed, the raw sum otherwise.
pub open spec fn step_slot_accumulator(
    parent: Offset,
    set_delta: int,
    slot_delta: int,
    opens_set: bool,
) -> int {
    if step_set(parent, set_delta, opens_set) != parent.set {
        0
    } else {
        parent.slot_accumulator + slot_delta
    }
}

/// The slot after a step: zero where the set has changed; else the
/// accumulator where the node opens a slot, and the parent's slot where it
/// does not.
pub open spec fn step_slot(
    parent: Offset,
    set_delta: int,
    slot_delta: int,
    opens_set: bool,
    opens_slot: bool,
) -> int {
    if step_set(parent, set_delta, opens_set) != parent.set {
        0
    } else if opens_slot {
        step_slot_accumulator(parent, set_delta, slot_delta, opens_set)
    } else {
        parent.slot as int
    }
}

/// The byte offset after a step: zero where the set or the slot has
/// changed, the sum otherwise.
pub open spec fn step_uniform(
    parent: Offset,
    uniform_delta: int,
    slot_delta: int,
    set_delta: int,
    opens_set: bool,
    opens_slot: bool,
) -> int {
    if step_set(parent, set_delta, opens_set) != parent.set || step_slot(
        parent,
        set_delta,
        slot_delta,
        opens_set,
        opens_slot,
    ) != parent.slot {
        0
    } else {
        parent.uniform + uniform_delta
    }
}

/// Whether the three sums of a step fit the machine word. The sums are taken
/// whether or not the step then resets an axis.
pub open spec fn step_fits(
    parent: Offset,
    uniform_delta: int,
    slot_delta: int,
    set_delta: int,
) -> bool {
    &&& parent.set_accumulator + set_delta <= usize::MAX
    &&& parent.slot_accumulator + slot_delta <= usize::MAX
    &&& parent.uniform + uniform_delta <= usize::MAX
}

/// The coordinate after one step, or `None` where a sum leaves the machine
/// word.
///
/// The three deltas are what the step adds in each category. `opens_set` and
/// `opens_slot` say whether the node entered starts a set or a slot of its
/// own. A set that differs from the parent's restarts the slot numbering; a
/// set or slot that differs from the parent's restarts the byte offset.
pub open spec fn spec_step(
    parent: Offset,
    uniform_delta: int,
    slot_delta: int,
    set_delta: int,
    opens_set: bool,
    opens_slot: bool,
) -> Option<Offset> {
    if uniform_delta >= 0 && slot_delta >= 0 && set_delta >= 0 && step_fits(
        parent,
        uniform_delta,
        slot_delta,
        set_delta,
    ) {
        Some(
            Offset {
                set: step_set(parent, set_delta, opens_set) as usize,
                set_accumulator: step_set_accumulator(parent, set_delta) as usize,
                slot: step_slot(parent, set_delta, slot_delta, opens_set, opens_slot) as usize,
                slot_accumulator: step_slot_accumulator(
                    parent,
                    set_delta,
                    slot_delta,
                    opens_set,
                ) as usize,
                uniform: step_uniform(
                    parent,
                    uniform_delta,
                    slot_delta,
                    set_delta,
                    opens_set,
                    opens_slot,
                ) as usize,
            },
        )
    } else {
        None
    }
}

impl Offset {
    /// The coordinate of the root: all zero.
    pub open spec fn spec_origin() -> Offset {
        Offset { set: 0, set_accumulator: 0, slot: 0, slot_accumulator: 0, uniform: 0 }
    }

    /// Each visible index is at most its accumulator.
    pub open spec fn wf(self) -> bool {
        &&& self.set <= self.set_accumulator
        &&& self.slot <= self.slot_accumulator
    }

    pub fn origin() -> (o: Offset)
        ensures
            o == Offset::spec_origin(),
            o.wf(),
    {
        Offset { set: 0, set_accumulator: 0, slot: 0, slot_accumulator: 0, uniform: 0 }
    }

    pub fn set(&self) -> (r: usize)
        ensures
            r == self.set,
    {
        self.set
    }

    pub fn set_accumulator(&self) -> (r: usize)
        ensures
            r == self.set_accumulator,
    {
        self.set_accumulator
    }

    pub fn slot(&self) -> (r: usize)
        ensures
            r == self.slot,
    {
        self.slot
    }

    pub fn slot_accumulator(&self) -> (r: usize)
        ensures
            r == self.slot_accumulator,
    {
        self.slot_accumulator
    }

    pub fn uniform(&self) -> (r: usize)
        ensures
            r == self.uniform,
    {
        self.uniform
    }

    /// One step down the tree: the single rule behind every kind of
    /// navigation. `delta` is the local offset of the node entered, or its
    /// stride times the index.
    pub fn step(&self, delta: Amounts, opens_set: bool, opens_slot: bool) -> (r: Option<Offset>)
        ensures
            r == spec_step(
                *self,
                delta.uniform as int,
                delta.slot as int,
                delta.set as int,
                opens_set,
                opens_slot,
            ),
    {
        let set_accumulator = match self.set_accumulator.checked_add(delta.set) {
            Some(v) => v,
            None => { return None; },
        };
        let raw_slot = match self.slot_accumulator.checked_add(delta.slot) {
            Some(v) => v,
            None => { return None; },
        };
        let raw_uniform = match self.uniform.checked_add(delta.uniform) {
            Some(v) => v,
            None => { return None; },
        };
        let set = if opens_set {
            set_accumulator
        } else {
            self.set
        };
        let set_changed = set != self.set;
        let slot_accumulator = if set_changed {
            0
        } else {
            raw_slot
        };
        let slot = if set_changed {
            0
        } else if opens_slot {
            slot_accumulator
        } else {
            self.slot
        };
        let uniform = if set_changed || slot != self.slot {
            0
        } else {
            raw_uniform
        };
        Some(Offset { set, set_accumulator, slot, slot_accumulator, uniform })
    }
}

impl Default for Offset {
    fn default() -> (o: Offset)
        ensures
            o == Offset::spec_origin(),
    {
        Offset::origin()
    }
}

/// A step keeps each visible index at or below its accumulator.
pub proof fn lemma_step_preserves_wf(
    parent: Offset,
    uniform_delta: int,
    slot_delta: int,
    set_delta: int,
    opens_set: bool,
    opens_slot: bool,
)
    requires
        parent.wf(),
        spec_step(parent, uniform_delta, slot_delta, set_delta, opens_set, opens_slot) is Some,
    ensures
        spec_step(parent, uniform_delta, slot_delta, set_delta, opens_set, opens_slot).unwrap().wf(),
{
}

/// A step into another set starts that set at slot zero and byte zero, with
/// the slot accumulator back at zero.
pub proof fn lemma_step_new_set_resets(
    parent: Offset,
    uniform_delta: int,
    slot_delta: int,
    set_delta: int,
    opens_set: bool,
    opens_slot: bool,
)
    requires
        spec_step(parent, uniform_delta, slot_delta, set_delta, opens_set, opens_slot) is Some,
        spec_step(
            parent,
            uniform_delta,
            slot_delta,
            set_delta,
            opens_set,
            opens_slot,
        ).unwrap().set != parent.set,
    ensures
        ({
            let child = spec_step(
                parent,
                uniform_delta,
                slot_delta,
                set_delta,
                opens_set,
                opens_slot,
            ).unwrap();
            child.slot == 0 && child.slot_accumulator == 0 && child.uniform == 0
        }),
{
}

} // verus!
