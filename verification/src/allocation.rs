//! From a coordinate to the buffer behind it. The builder binds every
//! descriptor at the slot of its position, so the buffers made from its
//! table stand where the cursor looks for them.

use crate::agreement::{
    lemma_binding_in_table, spec_bindings_agree, spec_fresh, spec_on_route,
};
use crate::binding::{
    spec_emit, spec_emit_fields, spec_emit_uniform, storage_kind, uniform_kind, BindingDescriptor,
    BindingKind, Table,
};
use crate::cursor::Step;
use crate::encode::zeros;
use crate::layout::{Field, LayoutNode, Shape};
use crate::pool::{spec_set_buffers, spec_usage_for, BufferImage};
use crate::route::{lemma_appended_extends, spec_in_step, spec_own_descriptor};
use vstd::prelude::*;

verus! {

/// Every descriptor of the list is bound at the slot of its position.
pub open spec fn spec_numbered_list(list: Seq<BindingDescriptor>) -> bool {
    forall|i: int| 0 <= i < list.len() ==> (#[trigger] list[i]).binding == i
}

/// Every descriptor of the table is bound at the slot of its position.
pub open spec fn spec_numbered(table: Table) -> bool {
    forall|set: usize| #[trigger] table.sets.contains_key(set) ==> spec_numbered_list(table.sets[set])
}

/// Adding a descriptor keeps the table numbered.
pub proof fn lemma_appended_numbered(table: Table, set: usize, kind: BindingKind)
    requires
        spec_in_step(set, table),
        spec_numbered(table),
        table.appended(set, kind) is Ok,
    ensures
        spec_numbered(table.appended(set, kind).unwrap()),
{
    lemma_appended_extends(table, set, kind);
    let after = table.appended(set, kind).unwrap();
    assert forall|other: usize| #[trigger] after.sets.contains_key(other) implies spec_numbered_list(
        after.sets[other],
    ) by {
        if other != set {
            assert(table.sets.contains_key(other));
        } else if table.sets.contains_key(set) {
            assert(spec_numbered_list(table.sets[set]));
        }
    }
}

/// The builder keeps the table numbered.
pub proof fn lemma_emit_numbered(node: LayoutNode, set: usize, table: Table)
    requires
        spec_in_step(set, table),
        spec_numbered(table),
        spec_emit(node, set, table) is Ok,
    ensures
        spec_numbered(spec_emit(node, set, table).unwrap()),
        spec_in_step(set, spec_emit(node, set, table).unwrap()),
    decreases node, 0nat,
{
    crate::route::lemma_emit_extends(node, set, table);
    match node.shape {
        Shape::Array { element, .. } => {
            lemma_emit_numbered(*element, set, table);
        },
        Shape::Struct { fields } => {
            lemma_emit_fields_numbered(fields, fields@.len(), set, table);
        },
        Shape::Sampler => {
            lemma_appended_numbered(table, set, BindingKind::Sampler);
        },
        Shape::Texture { shape, .. } => {
            lemma_appended_numbered(table, set, BindingKind::Texture { shape });
        },
        Shape::RawBuffer { element } => {
            lemma_appended_numbered(table, set, storage_kind(*element, true));
        },
        Shape::MutableRawBuffer { element } => {
            lemma_appended_numbered(table, set, storage_kind(*element, false));
        },
        Shape::ConstantBuffer { footprint, content } => {
            if footprint.set > 0 {
                let opened = table.with_new_set().unwrap();
                assert(spec_numbered(opened)) by {
                    assert forall|other: usize| #[trigger]
                        opened.sets.contains_key(other) implies spec_numbered_list(
                        opened.sets[other],
                    ) by {
                        if other != table.next {
                            assert(table.sets.contains_key(other));
                        }
                    }
                }
                if footprint.slot > 0 {
                    lemma_appended_numbered(opened, table.next, uniform_kind(content.node));
                    lemma_appended_extends(opened, table.next, uniform_kind(content.node));
                }
                let entered = spec_emit_uniform(
                    footprint.slot > 0,
                    content.node,
                    table.next,
                    opened,
                ).unwrap();
                lemma_emit_numbered(content.node, table.next, entered);
            } else {
                if footprint.slot > 0 {
                    lemma_appended_numbered(table, set, uniform_kind(content.node));
                    lemma_appended_extends(table, set, uniform_kind(content.node));
                }
                let entered = spec_emit_uniform(
                    footprint.slot > 0,
                    content.node,
                    set,
                    table,
                ).unwrap();
                lemma_emit_numbered(content.node, set, entered);
            }
        },
        Shape::ParameterBlock { footprint, content } => {
            if footprint.set > 0 {
                let opened = table.with_new_set().unwrap();
                assert(spec_numbered(opened)) by {
                    assert forall|other: usize| #[trigger]
                        opened.sets.contains_key(other) implies spec_numbered_list(
                        opened.sets[other],
                    ) by {
                        if other != table.next {
                            assert(table.sets.contains_key(other));
                        }
                    }
                }
                if footprint.slot > 0 {
                    lemma_appended_numbered(opened, table.next, uniform_kind(content.node));
                    lemma_appended_extends(opened, table.next, uniform_kind(content.node));
                }
                let entered = spec_emit_uniform(
                    footprint.slot > 0,
                    content.node,
                    table.next,
                    opened,
                ).unwrap();
                lemma_emit_numbered(content.node, table.next, entered);
            } else {
                if footprint.slot > 0 {
                    lemma_appended_numbered(table, set, uniform_kind(content.node));
                    lemma_appended_extends(table, set, uniform_kind(content.node));
                }
                let entered = spec_emit_uniform(
                    footprint.slot > 0,
                    content.node,
                    set,
                    table,
                ).unwrap();
                lemma_emit_numbered(content.node, set, entered);
            }
        },
        _ => {},
    }
}

/// The same of the first `count` fields of a struct.
pub proof fn lemma_emit_fields_numbered(fields: Vec<Field>, count: nat, set: usize, table: Table)
    requires
        spec_in_step(set, table),
        spec_numbered(table),
        spec_emit_fields(fields, count, set, table) is Ok,
    ensures
        spec_numbered(spec_emit_fields(fields, count, set, table).unwrap()),
        spec_in_step(set, spec_emit_fields(fields, count, set, table).unwrap()),
    decreases fields, count,
{
    if count == 0 || count > fields@.len() {
    } else {
        lemma_emit_fields_numbered(fields, (count - 1) as nat, set, table);
        let before = spec_emit_fields(fields, (count - 1) as nat, set, table).unwrap();
        lemma_emit_numbered(fields@[count - 1].node, set, before);
    }
}

/// In a numbered list the buffers of one set stand at the slots of the
/// buffer descriptors: each zeroed, of the descriptor's size and usage.
pub proof fn lemma_set_buffers_at(list: Seq<BindingDescriptor>, count: nat, i: int)
    requires
        spec_numbered_list(list),
        0 <= i < count <= list.len(),
        list[i].kind is Buffer,
    ensures
        spec_set_buffers(list, count).contains_key(i as usize),
        spec_set_buffers(list, count)[i as usize] == (BufferImage {
            usage: spec_usage_for(list[i].kind->Buffer_kind),
            bytes: zeros(list[i].kind->Buffer_min_binding_size as nat),
        }),
    decreases count,
{
    assert(list[i].binding == i);
    assert(list[count - 1].binding == count - 1);
    if i < count - 1 {
        lemma_set_buffers_at(list, (count - 1) as nat, i);
    }
}

/// The buffer behind a coordinate. In a layout where cursor and builder
/// agree at every node at which a set or a slot begins, take any node on the
/// builder's route for which the builder adds a buffer descriptor. Among the
/// buffers that the finished table asks for, the one at the set and slot of
/// the node's cursor is the node's: zeroed, of the descriptor's size and
/// usage.
pub proof fn lemma_buffer_behind_cursor(root: &LayoutNode, path: Seq<Step>)
    requires
        spec_bindings_agree(root),
        spec_emit(*root, 0, Table::empty()) is Ok,
        spec_fresh(root).spec_walk(path) is Some,
        spec_on_route(*root, path),
        spec_own_descriptor(*spec_fresh(root).spec_walk(path).unwrap().type_layout) matches Some(
            Ok(kind),
        ) && kind is Buffer,
    ensures
        ({
            let c = spec_fresh(root).spec_walk(path).unwrap();
            let finished = spec_emit(*root, 0, Table::empty()).unwrap();
            let own = spec_own_descriptor(*c.type_layout).unwrap().unwrap();
            let list = finished.sets[c.offset.set];
            &&& finished.sets.contains_key(c.offset.set)
            &&& spec_set_buffers(list, list.len()).contains_key(c.offset.slot)
            &&& spec_set_buffers(list, list.len())[c.offset.slot] == BufferImage {
                usage: spec_usage_for(own->Buffer_kind),
                bytes: zeros(own->Buffer_min_binding_size as nat),
            }
        }),
{
    lemma_binding_in_table(root, path);
    assert(spec_numbered(Table::empty()));
    lemma_emit_numbered(*root, 0, Table::empty());
    let c = spec_fresh(root).spec_walk(path).unwrap();
    let finished = spec_emit(*root, 0, Table::empty()).unwrap();
    let list = finished.sets[c.offset.set];
    lemma_set_buffers_at(list, list.len(), c.offset.slot as int);
}

} // verus!
