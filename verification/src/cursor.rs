//! Navigation through the layout tree. A cursor pairs a node with its
//! coordinate; each navigation derives the child's coordinate from the
//! parent's coordinate and the node entered, and from nothing else.

use crate::layout::{Field, LayoutNode, Shape};
use crate::offset::{
    lemma_step_new_set_resets, lemma_step_preserves_wf, spec_step, Amounts, Offset,
};
use vstd::prelude::*;

verus! {

/// A node of the layout tree together with its coordinate.
#[derive(Clone, Copy)]
pub struct Cursor<'a> {
    pub type_layout: &'a LayoutNode,
    pub offset: Offset,
}

/// One move down the tree.
#[derive(Clone, Copy, Debug, PartialEq, Eq, Structural)]
pub enum Step {
    /// To the named child at this index of a struct.
    Field(u32),
    /// To the element of a container.
    Child,
    /// To the element at this index of an array or a resource.
    Index(u32),
}

/// The coordinate of `node` when it is entered from `parent`, `uniform`,
/// `slot` and `set` further on in the three categories.
pub open spec fn spec_enter(
    parent: Offset,
    uniform: int,
    slot: int,
    set: int,
    node: LayoutNode,
) -> Option<Offset> {
    spec_step(parent, uniform, slot, set, node.spec_opens_set(), node.spec_opens_slot())
}

impl<'a> Cursor<'a> {
    /// The cursor that entering `field` leads to.
    pub open spec fn spec_navigate_into_var(self, field: Field) -> Option<Cursor<'a>> {
        match spec_enter(
            self.offset,
            field.offset.uniform as int,
            field.offset.slot as int,
            field.offset.set as int,
            field.node,
        ) {
            Some(offset) => Some(Cursor { type_layout: &field.node, offset }),
            None => None,
        }
    }

    /// Defined on a struct with a child at `index`.
    pub open spec fn spec_navigate_field(self, index: int) -> Option<Cursor<'a>> {
        if 0 <= index < self.type_layout.spec_fields().len() {
            self.spec_navigate_into_var(self.type_layout.spec_fields()[index])
        } else {
            None
        }
    }

    /// Defined on the four container kinds.
    pub open spec fn spec_navigate_child(self) -> Option<Cursor<'a>> {
        match self.type_layout.spec_container_element() {
            Some(field) => self.spec_navigate_into_var(field),
            None => None,
        }
    }

    /// Defined on an array, for an index below its count, and on a texture or
    /// buffer resource, for every index. An array moves by its element stride
    /// in all three categories; a resource moves by the uniform stride of its
    /// element and stays at its set and slot.
    pub open spec fn spec_navigate_index(self, index: int) -> Option<Cursor<'a>> {
        match self.type_layout.shape {
            Shape::Array { count, element_stride, element } => {
                if 0 <= index < count {
                    match spec_enter(
                        self.offset,
                        element_stride.uniform * index,
                        element_stride.slot * index,
                        element_stride.set * index,
                        *element,
                    ) {
                        Some(offset) => Some(Cursor { type_layout: &*element, offset }),
                        None => None,
                    }
                } else {
                    None
                }
            },
            Shape::Texture { element, .. } => self.spec_index_resource(*element, index),
            Shape::RawBuffer { element } => self.spec_index_resource(*element, index),
            Shape::MutableRawBuffer { element } => self.spec_index_resource(*element, index),
            _ => None,
        }
    }

    pub open spec fn spec_index_resource(self, element: LayoutNode, index: int) -> Option<
        Cursor<'a>,
    > {
        if 0 <= index {
            match spec_enter(self.offset, element.stride.uniform * index, 0, 0, element) {
                Some(offset) => Some(Cursor { type_layout: &element, offset }),
                None => None,
            }
        } else {
            None
        }
    }

    /// The cursor after one move.
    pub open spec fn spec_navigate(self, step: Step) -> Option<Cursor<'a>> {
        match step {
            Step::Field(i) => self.spec_navigate_field(i as int),
            Step::Child => self.spec_navigate_child(),
            Step::Index(i) => self.spec_navigate_index(i as int),
        }
    }

    /// The cursor after the moves of `path`, first to last; `None` as soon as
    /// one of them is not defined.
    pub open spec fn spec_walk(self, path: Seq<Step>) -> Option<Cursor<'a>>
        decreases path.len(),
    {
        if path.len() == 0 {
            Some(self)
        } else {
            match self.spec_walk(path.drop_last()) {
                Some(c) => c.spec_navigate(path.last()),
                None => None,
            }
        }
    }

    /// The cursor at the root of a layout: the origin.
    pub fn fresh(type_layout: &'a LayoutNode) -> (c: Cursor<'a>)
        ensures
            c.type_layout == type_layout,
            c.offset == Offset::spec_origin(),
    {
        Cursor { type_layout, offset: Offset::origin() }
    }

    /// Enters `vl`, a child of this cursor's node.
    pub fn navigate_into_var(&self, vl: &'a Field) -> (r: Option<Cursor<'a>>)
        ensures
            r == self.spec_navigate_into_var(*vl),
    {
        let node = &vl.node;
        match self.offset.step(vl.offset, node.opens_set(), node.opens_slot()) {
            Some(offset) => Some(Cursor { type_layout: node, offset }),
            None => None,
        }
    }

    /// Enters the named child at `field_index`. There is no such path unless
    /// this node is a struct with that many children.
    pub fn navigate_field(&self, field_index: u32) -> (r: Option<Cursor<'a>>)
        ensures
            r == self.spec_navigate_field(field_index as int),
    {
        match self.type_layout.field_by_index(field_index as usize) {
            Some(field) => self.navigate_into_var(field),
            None => None,
        }
    }

    /// Enters the element of a container. There is no such path from any
    /// other kind of node.
    pub fn navigate_child(&self) -> (r: Option<Cursor<'a>>)
        ensures
            r == self.spec_navigate_child(),
    {
        match self.type_layout.container_element() {
            Some(field) => self.navigate_into_var(field),
            None => None,
        }
    }

    /// Enters the element at `buffer_index` of an array or a resource. There
    /// is no such path past the end of an array, nor from any other kind.
    pub fn navigate_index(&self, buffer_index: u32) -> (r: Option<Cursor<'a>>)
        ensures
            r == self.spec_navigate_index(buffer_index as int),
    {
        let index = buffer_index as usize;
        match &self.type_layout.shape {
            Shape::Array { count, element_stride, element } => {
                if index >= *count {
                    return None;
                }
                proof {
                    lemma_product_nonnegative(element_stride.uniform as int, index as int);
                    lemma_product_nonnegative(element_stride.slot as int, index as int);
                    lemma_product_nonnegative(element_stride.set as int, index as int);
                }
                match scale(*element_stride, index) {
                    Some(delta) => self.enter(delta, &**element),
                    None => None,
                }
            },
            Shape::Texture { element, .. } => self.index_resource(&**element, index),
            Shape::RawBuffer { element } => self.index_resource(&**element, index),
            Shape::MutableRawBuffer { element } => self.index_resource(&**element, index),
            _ => None,
        }
    }

    fn index_resource(&self, element: &'a LayoutNode, index: usize) -> (r: Option<Cursor<'a>>)
        ensures
            r == self.spec_index_resource(*element, index as int),
    {
        let strides = Amounts { uniform: element.stride.uniform, slot: 0, set: 0 };
        proof {
            lemma_product_nonnegative(element.stride.uniform as int, index as int);
        }
        let scaled = scale(strides, index);
        proof {
            assert(strides.slot * index == 0);
            assert(strides.set * index == 0);
            assert(strides.uniform * index == element.stride.uniform * index);
        }
        match scaled {
            Some(delta) => self.enter(delta, element),
            None => None,
        }
    }

    fn enter(&self, delta: Amounts, node: &'a LayoutNode) -> (r: Option<Cursor<'a>>)
        ensures
            r == (match spec_enter(
                self.offset,
                delta.uniform as int,
                delta.slot as int,
                delta.set as int,
                *node,
            ) {
                Some(offset) => Some(Cursor { type_layout: node, offset }),
                None => None,
            }),
    {
        match self.offset.step(delta, node.opens_set(), node.opens_slot()) {
            Some(offset) => Some(Cursor { type_layout: node, offset }),
            None => None,
        }
    }

    /// One move down the tree.
    pub fn navigate(&self, step: Step) -> (r: Option<Cursor<'a>>)
        ensures
            r == self.spec_navigate(step),
    {
        match step {
            Step::Field(i) => self.navigate_field(i),
            Step::Child => self.navigate_child(),
            Step::Index(i) => self.navigate_index(i),
        }
    }

    /// The moves of `path` in turn.
    pub fn walk(&self, path: &Vec<Step>) -> (r: Option<Cursor<'a>>)
        ensures
            r == self.spec_walk(path@),
    {
        let mut current = *self;
        let mut i: usize = 0;
        while i < path.len()
            invariant
                i <= path.len(),
                self.spec_walk(path@.take(i as int)) == Some(current),
            decreases path.len() - i,
        {
            let next = current.navigate(path[i]);
            proof {
                let prefix = path@.take(i as int + 1);
                assert(prefix.drop_last() == path@.take(i as int));
                assert(prefix.last() == path@[i as int]);
            }
            match next {
                Some(c) => {
                    current = c;
                },
                None => {
                    proof {
                        lemma_walk_none_extends(*self, path@.take(i as int + 1), path@);
                    }
                    return None;
                },
            }
            i += 1;
        }
        proof {
            assert(path@.take(path.len() as int) == path@);
        }
        Some(current)
    }

    pub fn type_layout(&self) -> (r: &'a LayoutNode)
        ensures
            r == self.type_layout,
    {
        self.type_layout
    }

    pub fn offset(&self) -> (r: Offset)
        ensures
            r == self.offset,
    {
        self.offset
    }
}

/// The amounts `index` times over, or `None` where a product leaves the
/// machine word.
fn scale(strides: Amounts, index: usize) -> (r: Option<Amounts>)
    ensures
        r is Some <==> strides.uniform * index <= usize::MAX && strides.slot * index <= usize::MAX
            && strides.set * index <= usize::MAX,
        r is Some ==> r.unwrap().uniform == strides.uniform * index && r.unwrap().slot
            == strides.slot * index && r.unwrap().set == strides.set * index,
{
    let uniform = match strides.uniform.checked_mul(index) {
        Some(v) => v,
        None => { return None; },
    };
    let slot = match strides.slot.checked_mul(index) {
        Some(v) => v,
        None => { return None; },
    };
    let set = match strides.set.checked_mul(index) {
        Some(v) => v,
        None => { return None; },
    };
    Some(Amounts { uniform, slot, set })
}

proof fn lemma_product_nonnegative(a: int, b: int)
    by (nonlinear_arith)
    requires
        a >= 0,
        b >= 0,
    ensures
        a * b >= 0,
        a == 0 ==> a * b == 0,
{
}

/// Once a prefix of a path leads nowhere, so does the whole path.
pub proof fn lemma_walk_none_extends(c: Cursor, prefix: Seq<Step>, path: Seq<Step>)
    requires
        prefix.len() <= path.len(),
        prefix == path.take(prefix.len() as int),
        c.spec_walk(prefix) is None,
    ensures
        c.spec_walk(path) is None,
    decreases path.len(),
{
    if prefix.len() < path.len() {
        assert(path.drop_last().take(prefix.len() as int) == prefix);
        lemma_walk_none_extends(c, prefix, path.drop_last());
    } else {
        assert(path.take(path.len() as int) == path);
    }
}

/// A move keeps each visible index at or below its accumulator.
pub proof fn lemma_navigate_preserves_wf(c: Cursor, step: Step)
    requires
        c.offset.wf(),
        c.spec_navigate(step) is Some,
    ensures
        c.spec_navigate(step).unwrap().offset.wf(),
{
    match step {
        Step::Field(i) => {
            let field = c.type_layout.spec_fields()[i as int];
            lemma_step_preserves_wf(
                c.offset,
                field.offset.uniform as int,
                field.offset.slot as int,
                field.offset.set as int,
                field.node.spec_opens_set(),
                field.node.spec_opens_slot(),
            );
        },
        Step::Child => {
            let field = c.type_layout.spec_container_element().unwrap();
            lemma_step_preserves_wf(
                c.offset,
                field.offset.uniform as int,
                field.offset.slot as int,
                field.offset.set as int,
                field.node.spec_opens_set(),
                field.node.spec_opens_slot(),
            );
        },
        Step::Index(i) => {
            match c.type_layout.shape {
                Shape::Array { count, element_stride, element } => {
                    lemma_step_preserves_wf(
                        c.offset,
                        element_stride.uniform * i,
                        element_stride.slot * i,
                        element_stride.set * i,
                        element.spec_opens_set(),
                        element.spec_opens_slot(),
                    );
                },
                _ => {
                    let element = c.type_layout.spec_indexed_element().unwrap();
                    lemma_step_preserves_wf(
                        c.offset,
                        element.stride.uniform * i,
                        0,
                        0,
                        element.spec_opens_set(),
                        element.spec_opens_slot(),
                    );
                },
            }
        },
    }
}

/// At every cursor that any path reaches from the root of a layout, the set
/// is at most the set accumulator and the slot at most the slot accumulator.
pub proof fn lemma_reachable_offsets_wf(root: &LayoutNode, path: Seq<Step>)
    requires
        (Cursor { type_layout: root, offset: Offset::spec_origin() }).spec_walk(path) is Some,
    ensures
        ({
            let reached = (Cursor { type_layout: root, offset: Offset::spec_origin() }).spec_walk(
                path,
            ).unwrap();
            reached.offset.set <= reached.offset.set_accumulator && reached.offset.slot
                <= reached.offset.slot_accumulator
        }),
    decreases path.len(),
{
    let start = Cursor { type_layout: root, offset: Offset::spec_origin() };
    if path.len() > 0 {
        lemma_reachable_offsets_wf(root, path.drop_last());
        lemma_navigate_preserves_wf(start.spec_walk(path.drop_last()).unwrap(), path.last());
    }
}

/// A move that changes the set arrives at slot zero and byte zero of the new
/// set, with the slot accumulator at zero.
pub proof fn lemma_navigate_new_set_resets(c: Cursor, step: Step)
    requires
        c.spec_navigate(step) is Some,
        c.spec_navigate(step).unwrap().offset.set != c.offset.set,
    ensures
        c.spec_navigate(step).unwrap().offset.slot == 0,
        c.spec_navigate(step).unwrap().offset.slot_accumulator == 0,
        c.spec_navigate(step).unwrap().offset.uniform == 0,
{
    match step {
        Step::Field(i) => {
            let field = c.type_layout.spec_fields()[i as int];
            lemma_step_new_set_resets(
                c.offset,
                field.offset.uniform as int,
                field.offset.slot as int,
                field.offset.set as int,
                field.node.spec_opens_set(),
                field.node.spec_opens_slot(),
            );
        },
        Step::Child => {
            let field = c.type_layout.spec_container_element().unwrap();
            lemma_step_new_set_resets(
                c.offset,
                field.offset.uniform as int,
                field.offset.slot as int,
                field.offset.set as int,
                field.node.spec_opens_set(),
                field.node.spec_opens_slot(),
            );
        },
        Step::Index(i) => {
            match c.type_layout.shape {
                Shape::Array { count, element_stride, element } => {
                    lemma_step_new_set_resets(
                        c.offset,
                        element_stride.uniform * i,
                        element_stride.slot * i,
                        element_stride.set * i,
                        element.spec_opens_set(),
                        element.spec_opens_slot(),
                    );
                },
                _ => {
                    let element = c.type_layout.spec_indexed_element().unwrap();
                    lemma_step_new_set_resets(
                        c.offset,
                        element.stride.uniform * i,
                        0,
                        0,
                        element.spec_opens_set(),
                        element.spec_opens_slot(),
                    );
                },
            }
        },
    }
}

/// Two moves from one cursor that end in different sets: at least one of
/// them has left the cursor's set, and each that has left it has arrived at
/// slot zero and byte zero of its new set.
pub proof fn lemma_siblings_in_different_sets(c: Cursor, first: Step, second: Step)
    requires
        c.spec_navigate(first) is Some,
        c.spec_navigate(second) is Some,
        c.spec_navigate(first).unwrap().offset.set != c.spec_navigate(second).unwrap().offset.set,
    ensures
        ({
            let a = c.spec_navigate(first).unwrap().offset;
            let b = c.spec_navigate(second).unwrap().offset;
            &&& a.set != c.offset.set || b.set != c.offset.set
            &&& a.set != c.offset.set ==> a.slot == 0 && a.uniform == 0
            &&& b.set != c.offset.set ==> b.slot == 0 && b.uniform == 0
        }),
{
    if c.spec_navigate(first).unwrap().offset.set != c.offset.set {
        lemma_navigate_new_set_resets(c, first);
    }
    if c.spec_navigate(second).unwrap().offset.set != c.offset.set {
        lemma_navigate_new_set_resets(c, second);
    }
}

/// Navigation has no memory: a walk along a path in two stages, from the
/// cursor that the first stage reached, ends where the walk along the whole
/// path ends. So a cursor computed on the way and one computed afresh from
/// the root are the same.
pub proof fn lemma_walk_in_stages(c: Cursor, first: Seq<Step>, second: Seq<Step>)
    ensures
        c.spec_walk(first + second) == (match c.spec_walk(first) {
            Some(reached) => reached.spec_walk(second),
            None => None,
        }),
    decreases second.len(),
{
    if second.len() == 0 {
        assert(first + second =~= first);
    } else {
        assert((first + second).drop_last() =~= first + second.drop_last());
        assert((first + second).last() == second.last());
        lemma_walk_in_stages(c, first, second.drop_last());
    }
}

} // verus!
