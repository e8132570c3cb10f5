//! Where the cursor and the builder meet. The cursor derives the set and slot
//! of a node from the local offsets of the layout; the builder numbers sets
//! and slots in the order in which it meets them. In a layout where the two
//! agree at every node at which a set or a slot begins, they agree
//! everywhere,
//! and the builder's table holds the binding behind every coordinate.

use crate::binding::{all_stages, spec_emit, BindingDescriptor, Table};
use crate::cursor::{Cursor, Step};
use crate::layout::{Kind, LayoutNode, Shape};
use crate::offset::{spec_step, Offset};
use crate::route::{
    lemma_appended_extends, lemma_emit_below_extends, lemma_emit_fields_extends,
    lemma_emit_fields_grow, lemma_emit_unfolds, lemma_entered_sound, lemma_extends_transitive,
    spec_builder_opens_set, spec_entered, spec_extends, spec_own_descriptor, spec_reach,
    spec_reach_step, spec_sound, Arrival,
};
use vstd::prelude::*;

verus! {

/// The cursor at the root of a layout.
pub open spec fn spec_fresh(root: &LayoutNode) -> Cursor {
    Cursor { type_layout: root, offset: Offset::spec_origin() }
}

/// Whether cursor and builder agree at the node that `path` leads to, as far
/// as a set or a slot begins there. Where the cursor opens a set, its set is
/// the set in which the builder goes on. Where the cursor opens a slot or
/// the builder adds a descriptor for the node, the cursor's slot is the
/// slot of that descriptor, or, without one, the slot in which the builder
/// goes on.
pub open spec fn spec_agree_at(root: &LayoutNode, path: Seq<Step>) -> bool {
    match (spec_fresh(root).spec_walk(path), spec_reach(*root, path)) {
        (Some(c), Some(place)) => match spec_entered(place.node, place.arrival) {
            Ok(e) => {
                &&& c.type_layout.spec_opens_set() ==> c.offset.set == e.set
                &&& c.type_layout.spec_opens_slot() || spec_own_descriptor(place.node) is Some
                    ==> c.offset.slot == e.slot
            },
            Err(_) => true,
        },
        _ => true,
    }
}

/// Whether cursor and builder agree at every node of the layout at which a
/// set or a slot begins: where the cursor opens one, or the builder adds a
/// descriptor.
pub open spec fn spec_bindings_agree(root: &LayoutNode) -> bool {
    forall|path: Seq<Step>| #[trigger] spec_agree_at(root, path)
}

/// One step of the cursor against one entering of the builder. Where the two
/// stood at the same set and slot before, and agree on the set if the node
/// opens one and on the slot if the node opens one, they stand at the same
/// set and slot after.
pub proof fn lemma_step_agrees(
    parent: Offset,
    uniform_delta: int,
    slot_delta: int,
    set_delta: int,
    node: LayoutNode,
    arrival: Arrival,
)
    requires
        spec_step(
            parent,
            uniform_delta,
            slot_delta,
            set_delta,
            node.spec_opens_set(),
            node.spec_opens_slot(),
        ) is Some,
        spec_entered(node, arrival) is Ok,
        spec_sound(arrival),
        parent.set == arrival.set,
        parent.slot == arrival.slot,
        ({
            let child = spec_step(
                parent,
                uniform_delta,
                slot_delta,
                set_delta,
                node.spec_opens_set(),
                node.spec_opens_slot(),
            ).unwrap();
            let entered = spec_entered(node, arrival).unwrap();
            &&& node.spec_opens_set() ==> child.set == entered.set
            &&& node.spec_opens_slot() || spec_own_descriptor(node) is Some ==> child.slot
                == entered.slot
        }),
    ensures
        ({
            let child = spec_step(
                parent,
                uniform_delta,
                slot_delta,
                set_delta,
                node.spec_opens_set(),
                node.spec_opens_slot(),
            ).unwrap();
            let entered = spec_entered(node, arrival).unwrap();
            child.set == entered.set && child.slot == entered.slot
        }),
{
}

/// Coordinate agreement. In a layout where cursor and builder agree at every
/// node at which a set or a slot begins, they agree at every node: the set and
/// slot of the cursor that a path reaches are the set in which the builder
/// goes on at that node and the slot of the binding that encloses it there.
pub proof fn lemma_coordinates_agree(root: &LayoutNode, path: Seq<Step>)
    requires
        spec_bindings_agree(root),
        spec_fresh(root).spec_walk(path) is Some,
        spec_reach(*root, path) is Some,
        spec_entered(
            spec_reach(*root, path).unwrap().node,
            spec_reach(*root, path).unwrap().arrival,
        ) is Ok,
    ensures
        ({
            let c = spec_fresh(root).spec_walk(path).unwrap();
            let place = spec_reach(*root, path).unwrap();
            let entered = spec_entered(place.node, place.arrival).unwrap();
            &&& *c.type_layout == place.node
            &&& c.offset.set == entered.set
            &&& c.offset.slot == entered.slot
            &&& spec_sound(place.arrival)
        }),
    decreases path.len(),
{
    let c = spec_fresh(root).spec_walk(path).unwrap();
    let place = spec_reach(*root, path).unwrap();
    if path.len() == 0 {
    } else {
        let before = path.drop_last();
        let step = path.last();
        lemma_coordinates_agree(root, before);
        let cp = spec_fresh(root).spec_walk(before).unwrap();
        let pp = spec_reach(*root, before).unwrap();
        let ep = spec_entered(pp.node, pp.arrival).unwrap();
        lemma_entered_sound(pp.node, pp.arrival);
        assert(spec_agree_at(root, path));
        assert(c == cp.spec_navigate(step).unwrap());
        assert(Some(place) == spec_reach_step(pp.node, ep, step));
        match step {
            Step::Field(i) => {
                let fields = pp.node.shape->Struct_fields;
                let field = fields@[i as int];
                lemma_emit_fields_extends(fields, i as nat, ep.set, ep.table);
                lemma_step_agrees(
                    cp.offset,
                    field.offset.uniform as int,
                    field.offset.slot as int,
                    field.offset.set as int,
                    field.node,
                    place.arrival,
                );
            },
            Step::Child => {
                let field = pp.node.spec_container_element().unwrap();
                lemma_step_agrees(
                    cp.offset,
                    field.offset.uniform as int,
                    field.offset.slot as int,
                    field.offset.set as int,
                    field.node,
                    place.arrival,
                );
            },
            Step::Index(i) => {
                match pp.node.shape {
                    Shape::Array { count, element_stride, element } => {
                        lemma_step_agrees(
                            cp.offset,
                            element_stride.uniform * i,
                            element_stride.slot * i,
                            element_stride.set * i,
                            *element,
                            place.arrival,
                        );
                    },
                    _ => {
                        let element = pp.node.spec_indexed_element().unwrap();
                        lemma_step_agrees(
                            cp.offset,
                            element.stride.uniform * i,
                            0,
                            0,
                            element,
                            place.arrival,
                        );
                    },
                }
            },
        }
    }
}

/// Whether the builder walks along `path`: it does unless the path indexes
/// into a texture or a buffer resource, whose elements the builder leaves
/// alone.
pub open spec fn spec_on_route(root: LayoutNode, path: Seq<Step>) -> bool
    decreases path.len(),
{
    if path.len() == 0 {
        true
    } else {
        &&& spec_on_route(root, path.drop_last())
        &&& match spec_reach(root, path.drop_last()) {
            Some(parent) => path.last() is Index ==> parent.node.spec_kind() == Kind::Array,
            None => false,
        }
    }
}

/// On the builder's route every node is reached, the builder's walk of it
/// succeeds, and the finished table holds the table as it stood after that
/// walk.
pub proof fn lemma_route_is_walked(root: &LayoutNode, path: Seq<Step>)
    requires
        spec_bindings_agree(root),
        spec_emit(*root, 0, Table::empty()) is Ok,
        spec_fresh(root).spec_walk(path) is Some,
        spec_on_route(*root, path),
    ensures
        spec_reach(*root, path) is Some,
        ({
            let place = spec_reach(*root, path).unwrap();
            let walked = spec_emit(place.node, place.arrival.set, place.arrival.table);
            &&& spec_sound(place.arrival)
            &&& walked is Ok
            &&& spec_entered(place.node, place.arrival) is Ok
            &&& spec_extends(walked.unwrap(), spec_emit(*root, 0, Table::empty()).unwrap())
        }),
    decreases path.len(),
{
    let finished = spec_emit(*root, 0, Table::empty()).unwrap();
    if path.len() == 0 {
        lemma_emit_unfolds(*root, Arrival::start());
    } else {
        let before = path.drop_last();
        let step = path.last();
        lemma_route_is_walked(root, before);
        lemma_coordinates_agree(root, before);
        let cp = spec_fresh(root).spec_walk(before).unwrap();
        let pp = spec_reach(*root, before).unwrap();
        let ep = spec_entered(pp.node, pp.arrival).unwrap();
        lemma_emit_unfolds(pp.node, pp.arrival);
        lemma_entered_sound(pp.node, pp.arrival);
        let walked_parent = spec_emit(pp.node, pp.arrival.set, pp.arrival.table).unwrap();
        assert(cp.spec_navigate(step) is Some);
        match step {
            Step::Field(i) => {
                let fields = pp.node.shape->Struct_fields;
                lemma_emit_fields_grow(fields, i as nat, fields@.len(), ep.set, ep.table);
                lemma_emit_fields_grow(fields, (i + 1) as nat, fields@.len(), ep.set, ep.table);
                lemma_emit_fields_extends(fields, i as nat, ep.set, ep.table);
                let place = spec_reach(*root, path).unwrap();
                lemma_extends_transitive(
                    spec_emit(place.node, place.arrival.set, place.arrival.table).unwrap(),
                    walked_parent,
                    finished,
                );
                lemma_emit_unfolds(place.node, place.arrival);
            },
            Step::Child => {
                let place = spec_reach(*root, path).unwrap();
                lemma_emit_unfolds(place.node, place.arrival);
            },
            Step::Index(i) => {
                let place = spec_reach(*root, path).unwrap();
                lemma_emit_unfolds(place.node, place.arrival);
            },
        }
    }
}

/// The binding behind a coordinate. In a layout where cursor and builder
/// agree at every node at which a set or a slot begins, take any node on the
/// builder's route for which the builder adds a descriptor. The finished
/// table has that descriptor in the set of the node's cursor, at the slot of
/// the node's cursor, and it is bound at that slot.
pub proof fn lemma_binding_in_table(root: &LayoutNode, path: Seq<Step>)
    requires
        spec_bindings_agree(root),
        spec_emit(*root, 0, Table::empty()) is Ok,
        spec_fresh(root).spec_walk(path) is Some,
        spec_on_route(*root, path),
        spec_own_descriptor(*spec_fresh(root).spec_walk(path).unwrap().type_layout) is Some,
    ensures
        ({
            let c = spec_fresh(root).spec_walk(path).unwrap();
            let finished = spec_emit(*root, 0, Table::empty()).unwrap();
            let own = spec_own_descriptor(*c.type_layout).unwrap();
            &&& own is Ok
            &&& finished.sets.contains_key(c.offset.set)
            &&& c.offset.slot < finished.sets[c.offset.set].len()
            &&& finished.sets[c.offset.set][c.offset.slot as int] == BindingDescriptor {
                binding: c.offset.slot as u32,
                visibility: all_stages(),
                kind: own.unwrap(),
            }
        }),
{
    lemma_route_is_walked(root, path);
    lemma_coordinates_agree(root, path);
    let c = spec_fresh(root).spec_walk(path).unwrap();
    let place = spec_reach(*root, path).unwrap();
    let entered = spec_entered(place.node, place.arrival).unwrap();
    let finished = spec_emit(*root, 0, Table::empty()).unwrap();
    lemma_emit_unfolds(place.node, place.arrival);
    lemma_entered_sound(place.node, place.arrival);
    let opened = if spec_builder_opens_set(place.node) {
        Arrival {
            set: place.arrival.table.next,
            slot: 0,
            table: place.arrival.table.with_new_set().unwrap(),
        }
    } else {
        place.arrival
    };
    let kind = spec_own_descriptor(place.node).unwrap().unwrap();
    lemma_appended_extends(opened.table, opened.set, kind);
    lemma_emit_below_extends(place.node, entered.set, entered.table);
    let walked = spec_emit(place.node, place.arrival.set, place.arrival.table).unwrap();
    lemma_extends_transitive(entered.table, walked, finished);
}

/// Cursor and builder reach the same node along a path.
pub proof fn lemma_same_node(root: &LayoutNode, path: Seq<Step>)
    requires
        spec_fresh(root).spec_walk(path) is Some,
        spec_reach(*root, path) is Some,
    ensures
        *spec_fresh(root).spec_walk(path).unwrap().type_layout == spec_reach(
            *root,
            path,
        ).unwrap().node,
    decreases path.len(),
{
    if path.len() > 0 {
        lemma_same_node(root, path.drop_last());
    }
}

} // verus!
