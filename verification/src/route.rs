//! The builder along a path. The builder's walk of a node is its entering
//! the node (opening the node's set, adding the node's own descriptor) and
//! then its walk of what the node holds. This module follows that walk down
//! a path and shows that the builder only ever adds to its table.

use crate::binding::{
    all_stages, append, lemma_emit_fields_error, spec_emit, spec_emit_fields, storage_kind,
    table_view, uniform_kind, BindingDescriptor, BindingKind, BufferBindingKind, LayoutError,
    Table,
};
use crate::cursor::Step;
use crate::layout::{Field, Kind, LayoutNode, Shape};
use std::collections::HashMap;
use vstd::prelude::*;

verus! {

broadcast use vstd::std_specs::hash::group_hash_axioms;

/// The builder on its way: the set in use, the slot of the binding that
/// encloses the position, and the table so far.
pub struct Arrival {
    pub set: usize,
    pub slot: usize,
    pub table: Table,
}

/// A node together with the builder's state on arriving at it.
pub struct Place {
    pub node: LayoutNode,
    pub arrival: Arrival,
}

impl Arrival {
    /// The builder before it has met anything.
    pub open spec fn start() -> Arrival {
        Arrival { set: 0, slot: 0, table: Table::empty() }
    }
}

/// The slot that the next descriptor of `set` gets.
pub open spec fn next_slot(table: Table, set: usize) -> nat {
    if table.sets.contains_key(set) {
        table.sets[set].len()
    } else {
        0
    }
}

/// The descriptor that the builder adds for `node` itself, if it adds one,
/// or the error that stands in its way.
pub open spec fn spec_own_descriptor(node: LayoutNode) -> Option<Result<BindingKind, LayoutError>> {
    match node.shape {
        Shape::Sampler => Some(Ok(BindingKind::Sampler)),
        Shape::Texture { shape, .. } => Some(Ok(BindingKind::Texture { shape })),
        Shape::RawBuffer { element } => if element.stride.uniform == 0 {
            Some(Err(LayoutError::EmptyElement))
        } else {
            Some(Ok(storage_kind(*element, true)))
        },
        Shape::MutableRawBuffer { element } => if element.stride.uniform == 0 {
            Some(Err(LayoutError::EmptyElement))
        } else {
            Some(Ok(storage_kind(*element, false)))
        },
        Shape::ConstantBuffer { footprint, content } => if footprint.slot > 0 {
            Some(Ok(uniform_kind(content.node)))
        } else {
            None
        },
        Shape::ParameterBlock { footprint, content } => if footprint.slot > 0 {
            Some(Ok(uniform_kind(content.node)))
        } else {
            None
        },
        _ => None,
    }
}

/// Whether the builder opens a set on entering `node`.
pub open spec fn spec_builder_opens_set(node: LayoutNode) -> bool {
    (node.spec_kind() == Kind::ConstantBuffer || node.spec_kind() == Kind::ParameterBlock)
        && node.spec_footprint().set > 0
}

/// Whether the builder handles `node` at all.
pub open spec fn spec_supported(node: LayoutNode) -> bool {
    node.spec_kind() != Kind::TextureBuffer && node.spec_kind() != Kind::ShaderStorageBuffer
}

/// The builder's state after it has entered `node`: after it has opened the
/// node's set and added the node's own descriptor, and before it goes on to
/// what the node holds. The slot is that of the node's descriptor if it has
/// one; it is zero in a set just opened.
pub open spec fn spec_entered(node: LayoutNode, arrival: Arrival) -> Result<Arrival, LayoutError> {
    if !spec_supported(node) {
        Err(LayoutError::Unsupported(node.spec_kind()))
    } else {
        let opened = if spec_builder_opens_set(node) {
            match arrival.table.with_new_set() {
                Ok(t) => Ok::<Arrival, LayoutError>(
                    Arrival { set: arrival.table.next, slot: 0, table: t },
                ),
                Err(e) => Err(e),
            }
        } else {
            Ok(arrival)
        };
        match opened {
            Ok(o) => match spec_own_descriptor(node) {
                Some(Ok(kind)) => match o.table.appended(o.set, kind) {
                    Ok(t) => Ok(
                        Arrival { set: o.set, slot: next_slot(o.table, o.set) as usize, table: t },
                    ),
                    Err(e) => Err(e),
                },
                Some(Err(e)) => Err(e),
                None => Ok(o),
            },
            Err(e) => Err(e),
        }
    }
}

/// The table after the builder has walked what `node` holds, in `set`.
pub open spec fn spec_emit_below(node: LayoutNode, set: usize, table: Table) -> Result<
    Table,
    LayoutError,
> {
    match node.shape {
        Shape::Array { element, .. } => spec_emit(*element, set, table),
        Shape::Struct { fields } => spec_emit_fields(fields, fields@.len(), set, table),
        Shape::ConstantBuffer { content, .. } => spec_emit(content.node, set, table),
        Shape::ParameterBlock { content, .. } => spec_emit(content.node, set, table),
        _ => Ok(table),
    }
}

/// The builder's walk of a node is its entering the node and then its walk
/// of what the node holds.
pub proof fn lemma_emit_unfolds(node: LayoutNode, arrival: Arrival)
    ensures
        spec_emit(node, arrival.set, arrival.table) == (match spec_entered(node, arrival) {
            Ok(e) => spec_emit_below(node, e.set, e.table),
            Err(e) => Err(e),
        }),
{
}

/// The node that `path` leads to from `root`, with the builder's state on
/// arriving there. The builder's state does not depend on the index into an
/// array or a resource: it meets the element once.
pub open spec fn spec_reach(root: LayoutNode, path: Seq<Step>) -> Option<Place>
    decreases path.len(),
{
    if path.len() == 0 {
        Some(Place { node: root, arrival: Arrival::start() })
    } else {
        match spec_reach(root, path.drop_last()) {
            Some(parent) => match spec_entered(parent.node, parent.arrival) {
                Ok(entered) => spec_reach_step(parent.node, entered, path.last()),
                Err(_) => None,
            },
            None => None,
        }
    }
}

/// One move from `node`, which the builder has entered in state `entered`.
pub open spec fn spec_reach_step(node: LayoutNode, entered: Arrival, step: Step) -> Option<Place> {
    match step {
        Step::Field(i) => match node.shape {
            Shape::Struct { fields } => if i < fields@.len() {
                match spec_emit_fields(fields, i as nat, entered.set, entered.table) {
                    Ok(t) => Some(
                        Place {
                            node: fields@[i as int].node,
                            arrival: Arrival { set: entered.set, slot: entered.slot, table: t },
                        },
                    ),
                    Err(_) => None,
                }
            } else {
                None
            },
            _ => None,
        },
        Step::Child => match node.spec_container_element() {
            Some(field) => Some(Place { node: field.node, arrival: entered }),
            None => None,
        },
        Step::Index(i) => match node.shape {
            Shape::Array { count, element, .. } => if i < count {
                Some(Place { node: *element, arrival: entered })
            } else {
                None
            },
            _ => match node.spec_indexed_element() {
                Some(element) => Some(Place { node: element, arrival: entered }),
                None => None,
            },
        },
    }
}

/// The sets of a table are exactly those below the index of the next one.
pub open spec fn spec_dense(table: Table) -> bool {
    forall|set: usize| #[trigger] table.sets.contains_key(set) <==> set < table.next
}

/// A table that the builder can go on with in `set`: its sets are dense, and
/// `set` is one of them or the next.
pub open spec fn spec_in_step(set: usize, table: Table) -> bool {
    spec_dense(table) && set <= table.next
}

/// `later` holds all of `earlier`: every set and, at the start of each
/// list, every descriptor.
pub open spec fn spec_extends(earlier: Table, later: Table) -> bool {
    &&& earlier.next <= later.next
    &&& forall|set: usize| #[trigger]
        earlier.sets.contains_key(set) ==> later.sets.contains_key(set) && earlier.sets[set].len()
            <= later.sets[set].len()
    &&& forall|set: usize, i: int|
        earlier.sets.contains_key(set) && 0 <= i < earlier.sets[set].len()
            ==> #[trigger] later.sets[set][i] == earlier.sets[set][i]
}

/// What holds all of a table that holds all of another holds all of that one.
pub proof fn lemma_extends_transitive(first: Table, second: Table, third: Table)
    requires
        spec_extends(first, second),
        spec_extends(second, third),
    ensures
        spec_extends(first, third),
{
    assert forall|set: usize| #[trigger] first.sets.contains_key(set) implies third.sets.contains_key(
        set,
    ) && first.sets[set].len() <= third.sets[set].len() by {
        assert(second.sets.contains_key(set));
    }
    assert forall|set: usize, i: int|
        first.sets.contains_key(set) && 0 <= i < first.sets[set].len() implies #[trigger] third.sets[set][i]
        == first.sets[set][i] by {
        assert(second.sets.contains_key(set));
        assert(second.sets[set][i] == first.sets[set][i]);
    }
}

/// Adding a descriptor keeps what the table held.
pub proof fn lemma_appended_extends(table: Table, set: usize, kind: BindingKind)
    requires
        spec_in_step(set, table),
        table.appended(set, kind) is Ok,
    ensures
        ({
            let after = table.appended(set, kind).unwrap();
            &&& spec_dense(after)
            &&& spec_extends(table, after)
            &&& after.sets.contains_key(set)
            &&& set < after.next
            &&& after.sets[set].len() == next_slot(table, set) + 1
            &&& after.sets[set][next_slot(table, set) as int] == BindingDescriptor {
                binding: next_slot(table, set) as u32,
                visibility: all_stages(),
                kind,
            }
        }),
{
}

/// The builder only ever adds: after its walk of a node the table holds all
/// that it held before.
pub proof fn lemma_emit_extends(node: LayoutNode, set: usize, table: Table)
    requires
        spec_in_step(set, table),
        spec_emit(node, set, table) is Ok,
    ensures
        spec_dense(spec_emit(node, set, table).unwrap()),
        spec_extends(table, spec_emit(node, set, table).unwrap()),
    decreases node, 0nat,
{
    match node.shape {
        Shape::Array { element, .. } => {
            lemma_emit_extends(*element, set, table);
        },
        Shape::Struct { fields } => {
            lemma_emit_fields_extends(fields, fields@.len(), set, table);
        },
        Shape::Sampler => {
            lemma_appended_extends(table, set, BindingKind::Sampler);
        },
        Shape::Texture { shape, .. } => {
            lemma_appended_extends(table, set, BindingKind::Texture { shape });
        },
        Shape::RawBuffer { element } => {
            lemma_appended_extends(table, set, storage_kind(*element, true));
        },
        Shape::MutableRawBuffer { element } => {
            lemma_appended_extends(table, set, storage_kind(*element, false));
        },
        Shape::ConstantBuffer { footprint, content } => {
            if footprint.set > 0 {
                let opened = table.with_new_set().unwrap();
                if footprint.slot > 0 {
                    lemma_appended_extends(opened, table.next, uniform_kind(content.node));
                }
                let entered = crate::binding::spec_emit_uniform(
                    footprint.slot > 0,
                    content.node,
                    table.next,
                    opened,
                ).unwrap();
                lemma_emit_extends(content.node, table.next, entered);
                lemma_extends_transitive(table, opened, entered);
                lemma_extends_transitive(
                    table,
                    entered,
                    spec_emit(content.node, table.next, entered).unwrap(),
                );
            } else {
                if footprint.slot > 0 {
                    lemma_appended_extends(table, set, uniform_kind(content.node));
                }
                let entered = crate::binding::spec_emit_uniform(
                    footprint.slot > 0,
                    content.node,
                    set,
                    table,
                ).unwrap();
                lemma_emit_extends(content.node, set, entered);
                lemma_extends_transitive(
                    table,
                    entered,
                    spec_emit(content.node, set, entered).unwrap(),
                );
            }
        },
        Shape::ParameterBlock { footprint, content } => {
            if footprint.set > 0 {
                let opened = table.with_new_set().unwrap();
                if footprint.slot > 0 {
                    lemma_appended_extends(opened, table.next, uniform_kind(content.node));
                }
                let entered = crate::binding::spec_emit_uniform(
                    footprint.slot > 0,
                    content.node,
                    table.next,
                    opened,
                ).unwrap();
                lemma_emit_extends(content.node, table.next, entered);
                lemma_extends_transitive(table, opened, entered);
                lemma_extends_transitive(
                    table,
                    entered,
                    spec_emit(content.node, table.next, entered).unwrap(),
                );
            } else {
                if footprint.slot > 0 {
                    lemma_appended_extends(table, set, uniform_kind(content.node));
                }
                let entered = crate::binding::spec_emit_uniform(
                    footprint.slot > 0,
                    content.node,
                    set,
                    table,
                ).unwrap();
                lemma_emit_extends(content.node, set, entered);
                lemma_extends_transitive(
                    table,
                    entered,
                    spec_emit(content.node, set, entered).unwrap(),
                );
            }
        },
        _ => {},
    }
}

/// The same of the first `count` fields of a struct, and of any fewer.
pub proof fn lemma_emit_fields_extends(fields: Vec<Field>, count: nat, set: usize, table: Table)
    requires
        spec_in_step(set, table),
        spec_emit_fields(fields, count, set, table) is Ok,
    ensures
        spec_dense(spec_emit_fields(fields, count, set, table).unwrap()),
        spec_extends(table, spec_emit_fields(fields, count, set, table).unwrap()),
    decreases fields, count,
{
    if count == 0 || count > fields@.len() {
    } else {
        lemma_emit_fields_extends(fields, (count - 1) as nat, set, table);
        let before = spec_emit_fields(fields, (count - 1) as nat, set, table).unwrap();
        lemma_emit_extends(fields@[count - 1].node, set, before);
        lemma_extends_transitive(
            table,
            before,
            spec_emit(fields@[count - 1].node, set, before).unwrap(),
        );
    }
}

/// An arrival that can come up on the builder's way: the table is in step
/// with the set in use, and in a set that does not exist yet no binding
/// encloses the position.
pub open spec fn spec_sound(arrival: Arrival) -> bool {
    &&& spec_in_step(arrival.set, arrival.table)
    &&& arrival.set == arrival.table.next ==> arrival.slot == 0
}

/// Entering a node keeps the builder's state sound and its table whole.
pub proof fn lemma_entered_sound(node: LayoutNode, arrival: Arrival)
    requires
        spec_sound(arrival),
        spec_entered(node, arrival) is Ok,
    ensures
        spec_sound(spec_entered(node, arrival).unwrap()),
        spec_extends(arrival.table, spec_entered(node, arrival).unwrap().table),
{
    let opened = if spec_builder_opens_set(node) {
        Arrival { set: arrival.table.next, slot: 0, table: arrival.table.with_new_set().unwrap() }
    } else {
        arrival
    };
    assert(spec_extends(arrival.table, opened.table));
    match spec_own_descriptor(node) {
        Some(Ok(kind)) => {
            lemma_appended_extends(opened.table, opened.set, kind);
            lemma_extends_transitive(
                arrival.table,
                opened.table,
                spec_entered(node, arrival).unwrap().table,
            );
        },
        _ => {},
    }
}

/// The table after all fields holds the table after the first `count`.
pub proof fn lemma_emit_fields_grow(
    fields: Vec<Field>,
    count: nat,
    total: nat,
    set: usize,
    table: Table,
)
    requires
        spec_in_step(set, table),
        count <= total <= fields@.len(),
        spec_emit_fields(fields, total, set, table) is Ok,
    ensures
        spec_emit_fields(fields, count, set, table) is Ok,
        spec_extends(
            spec_emit_fields(fields, count, set, table).unwrap(),
            spec_emit_fields(fields, total, set, table).unwrap(),
        ),
    decreases total - count,
{
    if spec_emit_fields(fields, count, set, table) is Err {
        lemma_emit_fields_error(fields, count, total, set, table);
    }
    if count < total {
        lemma_emit_fields_grow(fields, count + 1, total, set, table);
        lemma_emit_fields_extends(fields, count, set, table);
        let before = spec_emit_fields(fields, count, set, table).unwrap();
        lemma_emit_extends(fields@[count as int].node, set, before);
        lemma_extends_transitive(
            before,
            spec_emit_fields(fields, count + 1, set, table).unwrap(),
            spec_emit_fields(fields, total, set, table).unwrap(),
        );
    }
}

/// The builder's walk of what a node holds keeps what the table held.
pub proof fn lemma_emit_below_extends(node: LayoutNode, set: usize, table: Table)
    requires
        spec_in_step(set, table),
        spec_emit_below(node, set, table) is Ok,
    ensures
        spec_extends(table, spec_emit_below(node, set, table).unwrap()),
{
    match node.shape {
        Shape::Array { element, .. } => {
            lemma_emit_extends(*element, set, table);
        },
        Shape::Struct { fields } => {
            lemma_emit_fields_extends(fields, fields@.len(), set, table);
        },
        Shape::ConstantBuffer { content, .. } => {
            lemma_emit_extends(content.node, set, table);
        },
        Shape::ParameterBlock { content, .. } => {
            lemma_emit_extends(content.node, set, table);
        },
        _ => {},
    }
}

/// The builder's entering of `node`: opens the node's set and adds the
/// node's own descriptor. Returns the set in which the builder goes on, the
/// slot of the binding that encloses what the node holds, and the index
/// that the next new set gets.
pub(crate) fn enter(
    node: &LayoutNode,
    set: usize,
    slot: usize,
    entries: &mut HashMap<usize, Vec<BindingDescriptor>>,
    next_set_index: usize,
) -> (r: Result<(usize, usize, usize), LayoutError>)
    ensures
        match spec_entered(
            *node,
            Arrival {
                set,
                slot,
                table: Table { sets: table_view(*old(entries)), next: next_set_index },
            },
        ) {
            Ok(e) => r == Ok::<(usize, usize, usize), LayoutError>((e.set, e.slot, e.table.next))
                && table_view(*final(entries)) == e.table.sets,
            Err(e) => r == Err::<(usize, usize, usize), LayoutError>(e),
        },
{
    let own = match &node.shape {
        Shape::TextureBuffer { .. } => {
            return Err(LayoutError::Unsupported(Kind::TextureBuffer));
        },
        Shape::ShaderStorageBuffer { .. } => {
            return Err(LayoutError::Unsupported(Kind::ShaderStorageBuffer));
        },
        Shape::Sampler => Some(BindingKind::Sampler),
        Shape::Texture { shape, .. } => Some(BindingKind::Texture { shape: *shape }),
        Shape::RawBuffer { element } => {
            if element.stride.uniform == 0 {
                return Err(LayoutError::EmptyElement);
            }
            Some(
                BindingKind::Buffer {
                    kind: BufferBindingKind::Storage { read_only: true },
                    min_binding_size: element.stride.uniform,
                },
            )
        },
        Shape::MutableRawBuffer { element } => {
            if element.stride.uniform == 0 {
                return Err(LayoutError::EmptyElement);
            }
            Some(
                BindingKind::Buffer {
                    kind: BufferBindingKind::Storage { read_only: false },
                    min_binding_size: element.stride.uniform,
                },
            )
        },
        Shape::ConstantBuffer { footprint, content } => {
            if footprint.slot > 0 {
                Some(
                    BindingKind::Buffer {
                        kind: BufferBindingKind::Uniform,
                        min_binding_size: content.node.size.uniform,
                    },
                )
            } else {
                None
            }
        },
        Shape::ParameterBlock { footprint, content } => {
            if footprint.slot > 0 {
                Some(
                    BindingKind::Buffer {
                        kind: BufferBindingKind::Uniform,
                        min_binding_size: content.node.size.uniform,
                    },
                )
            } else {
                None
            }
        },
        _ => None,
    };
    let mut set = set;
    let mut slot = slot;
    let mut next = next_set_index;
    if (node.kind() == Kind::ConstantBuffer || node.kind() == Kind::ParameterBlock)
        && node.footprint().set > 0 {
        if next_set_index == usize::MAX {
            return Err(LayoutError::TooManySets);
        }
        set = next_set_index;
        slot = 0;
        entries.insert(set, Vec::new());
        next = next_set_index + 1;
        assert(table_view(*entries) =~= table_view(*old(entries)).insert(set, Seq::empty()));
    }
    match own {
        Some(kind) => {
            let taken = match entries.get(&set) {
                Some(list) => list.len(),
                None => 0,
            };
            match append(entries, set, next, kind) {
                Ok(n) => Ok((set, taken, n)),
                Err(e) => Err(e),
            }
        },
        None => Ok((set, slot, next)),
    }
}

} // verus!
