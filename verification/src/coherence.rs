//! A check that a layout's offsets are the ones the builder counts. It
//! follows the builder through the layout and compares coordinates at every
//! node at which a set or a slot begins.

use crate::agreement::{lemma_same_node, spec_agree_at, spec_bindings_agree, spec_fresh};
use crate::binding::{
    try_layout_entries_wowee, lemma_emit_fields_error, spec_emit, spec_emit_fields, table_view,
    BindingDescriptor, LayoutError, Table,
};
use crate::cursor::{spec_enter, Step};
use crate::layout::{Field, LayoutNode, Shape};
use crate::offset::Offset;
use crate::route::{
    enter, lemma_emit_unfolds, spec_entered, spec_reach, spec_reach_step, Arrival,
};
use std::collections::HashMap;
use vstd::prelude::*;

verus! {

broadcast use vstd::std_specs::hash::group_hash_axioms;

/// Whether nothing in `node` opens a set or a slot or is bound as a
/// resource.
pub open spec fn spec_plain(node: LayoutNode) -> bool
    decreases node, 0nat,
{
    &&& !node.spec_opens_set()
    &&& !node.spec_opens_slot()
    &&& !node.spec_is_bound()
    &&& match node.shape {
        Shape::Array { element, .. } => spec_plain(*element),
        Shape::Struct { fields } => spec_plain_fields(fields, fields@.len()),
        Shape::ConstantBuffer { content, .. } => spec_plain(content.node),
        Shape::ParameterBlock { content, .. } => spec_plain(content.node),
        Shape::TextureBuffer { content, .. } => spec_plain(content.node),
        Shape::ShaderStorageBuffer { content, .. } => spec_plain(content.node),
        _ => true,
    }
}

/// Whether nothing in the first `count` of `fields` opens a set or a slot
/// or is bound as a resource.
pub open spec fn spec_plain_fields(fields: Vec<Field>, count: nat) -> bool
    decreases fields, count,
{
    if count == 0 || count > fields@.len() {
        true
    } else {
        spec_plain_fields(fields, (count - 1) as nat) && spec_plain(fields@[count - 1].node)
    }
}

/// Whether cursor and builder agree on `node` and on all that it holds, the
/// cursor standing at `offset` and the builder arriving in state `arrival`.
///
/// They agree on the node itself as far as it opens a set or a slot or is
/// bound as a resource. They
/// agree on each child that the cursor can step to and the builder gets to.
/// Of an array or a resource only a plain element is accepted: the builder
/// meets the element once, whatever the index.
pub open spec fn spec_checked(node: LayoutNode, offset: Offset, arrival: Arrival) -> bool
    decreases node, 0nat,
{
    match spec_entered(node, arrival) {
        Ok(entered) => {
            &&& node.spec_opens_set() ==> offset.set == entered.set
            &&& node.spec_opens_slot() || node.spec_is_bound() ==> offset.slot == entered.slot
            &&& match node.shape {
                Shape::Array { element, .. } => spec_plain(*element),
                Shape::Texture { element, .. } => spec_plain(*element),
                Shape::RawBuffer { element } => spec_plain(*element),
                Shape::MutableRawBuffer { element } => spec_plain(*element),
                Shape::Struct { fields } => spec_checked_fields(
                    fields,
                    fields@.len(),
                    offset,
                    entered,
                ),
                Shape::ConstantBuffer { content, .. } => spec_checked_child(
                    *content,
                    offset,
                    entered,
                    spec_checked(
                        content.node,
                        spec_enter_field(offset, *content).unwrap(),
                        entered,
                    ),
                ),
                Shape::ParameterBlock { content, .. } => spec_checked_child(
                    *content,
                    offset,
                    entered,
                    spec_checked(
                        content.node,
                        spec_enter_field(offset, *content).unwrap(),
                        entered,
                    ),
                ),
                _ => true,
            }
        },
        Err(_) => true,
    }
}

/// The coordinate of `field` when it is entered from `parent`.
pub open spec fn spec_enter_field(parent: Offset, field: Field) -> Option<Offset> {
    spec_enter(
        parent,
        field.offset.uniform as int,
        field.offset.slot as int,
        field.offset.set as int,
        field.node,
    )
}

/// A child counts as checked where the cursor cannot step to it.
pub open spec fn spec_checked_child(
    field: Field,
    offset: Offset,
    entered: Arrival,
    checked: bool,
) -> bool {
    spec_enter_field(offset, field) is Some ==> checked
}

/// The same of the first `count` of `fields`, the builder having entered
/// their struct in state `entered`.
pub open spec fn spec_checked_fields(
    fields: Vec<Field>,
    count: nat,
    offset: Offset,
    entered: Arrival,
) -> bool
    decreases fields, count,
{
    if count == 0 || count > fields@.len() {
        true
    } else {
        &&& spec_checked_fields(fields, (count - 1) as nat, offset, entered)
        &&& match spec_emit_fields(fields, (count - 1) as nat, entered.set, entered.table) {
            Ok(t) => spec_checked_child(
                fields@[count - 1],
                offset,
                entered,
                spec_checked(
                    fields@[count - 1].node,
                    spec_enter_field(offset, fields@[count - 1]).unwrap(),
                    Arrival { set: entered.set, slot: entered.slot, table: t },
                ),
            ),
            Err(_) => true,
        }
    }
}

/// Each of the first `count` fields of a plain list is plain.
pub proof fn lemma_plain_field(fields: Vec<Field>, count: nat, i: int)
    requires
        spec_plain_fields(fields, count),
        0 <= i < count <= fields@.len(),
    ensures
        spec_plain(fields@[i].node),
    decreases count,
{
    if i < count - 1 {
        lemma_plain_field(fields, (count - 1) as nat, i);
    }
}

/// Each of the first `count` fields of a checked list is checked, if the
/// cursor can step to it and the builder gets to it.
pub proof fn lemma_checked_field(
    fields: Vec<Field>,
    count: nat,
    i: int,
    offset: Offset,
    entered: Arrival,
)
    requires
        spec_checked_fields(fields, count, offset, entered),
        0 <= i < count <= fields@.len(),
        spec_enter_field(offset, fields@[i]) is Some,
        spec_emit_fields(fields, i as nat, entered.set, entered.table) is Ok,
    ensures
        spec_checked(
            fields@[i].node,
            spec_enter_field(offset, fields@[i]).unwrap(),
            Arrival {
                set: entered.set,
                slot: entered.slot,
                table: spec_emit_fields(fields, i as nat, entered.set, entered.table).unwrap(),
            },
        ),
    decreases count,
{
    if i < count - 1 {
        lemma_checked_field(fields, (count - 1) as nat, i, offset, entered);
    }
}

/// Below a checked root every node that cursor and builder both reach is
/// checked or plain.
pub proof fn lemma_checked_along(root: &LayoutNode, path: Seq<Step>)
    requires
        spec_checked(*root, Offset::spec_origin(), Arrival::start()),
        spec_fresh(root).spec_walk(path) is Some,
        spec_reach(*root, path) is Some,
    ensures
        ({
            let c = spec_fresh(root).spec_walk(path).unwrap();
            let place = spec_reach(*root, path).unwrap();
            spec_checked(place.node, c.offset, place.arrival) || spec_plain(place.node)
        }),
    decreases path.len(),
{
    if path.len() > 0 {
        let before = path.drop_last();
        let step = path.last();
        lemma_checked_along(root, before);
        lemma_same_node(root, before);
        lemma_same_node(root, path);
        let cp = spec_fresh(root).spec_walk(before).unwrap();
        let pp = spec_reach(*root, before).unwrap();
        let ep = spec_entered(pp.node, pp.arrival).unwrap();
        let c = spec_fresh(root).spec_walk(path).unwrap();
        let place = spec_reach(*root, path).unwrap();
        assert(Some(c) == cp.spec_navigate(step));
        assert(Some(place) == spec_reach_step(pp.node, ep, step));
        match step {
            Step::Field(i) => {
                let fields = pp.node.shape->Struct_fields;
                if spec_plain(pp.node) {
                    lemma_plain_field(fields, fields@.len(), i as int);
                } else {
                    lemma_checked_field(fields, fields@.len(), i as int, cp.offset, ep);
                }
            },
            Step::Child => {},
            Step::Index(i) => {},
        }
    }
}

/// A checked layout is one in which cursor and builder agree at every node
/// at which a set or a slot begins.
pub proof fn lemma_checked_layouts_agree(root: &LayoutNode)
    requires
        spec_checked(*root, Offset::spec_origin(), Arrival::start()),
    ensures
        spec_bindings_agree(root),
{
    assert forall|path: Seq<Step>| #[trigger] spec_agree_at(root, path) by {
        if spec_fresh(root).spec_walk(path) is Some && spec_reach(*root, path) is Some {
            lemma_checked_along(root, path);
            lemma_same_node(root, path);
        }
    }
}

/// Whether nothing in `node` opens a set or a slot or is bound as a
/// resource.
pub fn is_plain(node: &LayoutNode) -> (plain: bool)
    ensures
        plain == spec_plain(*node),
    decreases *node,
{
    if node.opens_set() || node.opens_slot() || node.is_bound() {
        return false;
    }
    match &node.shape {
        Shape::Array { element, .. } => is_plain(&**element),
        Shape::Struct { fields } => {
            let mut i: usize = 0;
            while i < fields.len()
                invariant
                    i <= fields.len(),
                    node.shape is Struct,
                    node.shape->Struct_fields == *fields,
                    spec_plain_fields(*fields, i as nat),
                decreases fields.len() - i,
            {
                let plain = is_plain(&fields[i].node);
                if !plain {
                    proof {
                        if spec_plain_fields(*fields, fields@.len()) {
                            lemma_plain_field(*fields, fields@.len(), i as int);
                        }
                    }
                    return false;
                }
                i += 1;
            }
            true
        },
        Shape::ConstantBuffer { content, .. }
        | Shape::ParameterBlock { content, .. }
        | Shape::TextureBuffer { content, .. }
        | Shape::ShaderStorageBuffer { content, .. } => is_plain(&content.node),
        _ => true,
    }
}

/// Checks `node` and what it holds, and walks it as the builder does.
/// Returns whether cursor and builder agree on it, and, where they do, what
/// the builder's walk returns.
fn check_node(
    node: &LayoutNode,
    offset: Offset,
    set: usize,
    slot: usize,
    entries: &mut HashMap<usize, Vec<BindingDescriptor>>,
    next_set_index: usize,
) -> (r: (bool, Result<usize, LayoutError>))
    ensures
        r.0 == spec_checked(
            *node,
            offset,
            Arrival {
                set,
                slot,
                table: Table { sets: table_view(*old(entries)), next: next_set_index },
            },
        ),
        r.0 ==> match spec_emit(
            *node,
            set,
            Table { sets: table_view(*old(entries)), next: next_set_index },
        ) {
            Ok(t) => r.1 == Ok::<usize, LayoutError>(t.next) && table_view(*final(entries))
                == t.sets,
            Err(e) => r.1 == Err::<usize, LayoutError>(e),
        },
    decreases *node,
{
    let ghost arrival = Arrival {
        set,
        slot,
        table: Table { sets: table_view(*old(entries)), next: next_set_index },
    };
    proof {
        lemma_emit_unfolds(*node, arrival);
    }
    let (entered_set, entered_slot, next) = match enter(node, set, slot, entries, next_set_index) {
        Ok(entered) => entered,
        Err(e) => { return (true, Err(e)); },
    };
    let ghost entered = spec_entered(*node, arrival).unwrap();
    if node.opens_set() && offset.set != entered_set {
        return (false, Ok(next));
    }
    if (node.opens_slot() || node.is_bound()) && offset.slot != entered_slot {
        return (false, Ok(next));
    }
    match &node.shape {
        Shape::Array { element, .. } => {
            if !is_plain(&**element) {
                return (false, Ok(next));
            }
            (true, try_layout_entries_wowee(&**element, entries, entered_set, next))
        },
        Shape::Texture { element, .. }
        | Shape::RawBuffer { element }
        | Shape::MutableRawBuffer { element } => (is_plain(&**element), Ok(next)),
        Shape::Struct { fields } => {
            let mut next = next;
            let mut i: usize = 0;
            while i < fields.len()
                invariant
                    i <= fields.len(),
                    node.shape is Struct,
                    node.shape->Struct_fields == *fields,
                    arrival == (Arrival {
                        set,
                        slot,
                        table: Table { sets: table_view(*old(entries)), next: next_set_index },
                    }),
                    spec_checked(*node, offset, arrival) == spec_checked_fields(
                        *fields,
                        fields@.len(),
                        offset,
                        entered,
                    ),
                    spec_emit(*node, set, arrival.table) == spec_emit_fields(
                        *fields,
                        fields@.len(),
                        entered.set,
                        entered.table,
                    ),
                    spec_checked_fields(*fields, i as nat, offset, entered),
                    spec_emit_fields(*fields, i as nat, entered.set, entered.table) == Ok::<
                        Table,
                        LayoutError,
                    >(Table { sets: table_view(*entries), next }),
                    entered_set == entered.set,
                    entered_slot == entered.slot,
                decreases fields.len() - i,
            {
                let ghost total = fields@.len();
                let field = &fields[i];
                let walked = match offset.step(
                    field.offset,
                    field.node.opens_set(),
                    field.node.opens_slot(),
                ) {
                    Some(child) => {
                        let (agreed, walked) = check_node(
                            &field.node,
                            child,
                            entered_set,
                            entered_slot,
                            entries,
                            next,
                        );
                        if !agreed {
                            proof {
                                if spec_checked_fields(*fields, total, offset, entered) {
                                    lemma_checked_field(*fields, total, i as int, offset, entered);
                                }
                            }
                            return (false, walked);
                        }
                        walked
                    },
                    None => try_layout_entries_wowee(&field.node, entries, entered_set, next),
                };
                match walked {
                    Ok(n) => {
                        next = n;
                    },
                    Err(e) => {
                        proof {
                            lemma_emit_fields_error(
                                *fields,
                                (i + 1) as nat,
                                total,
                                entered.set,
                                entered.table,
                            );
                            lemma_checked_after_error(
                                *fields,
                                (i + 1) as nat,
                                total,
                                offset,
                                entered,
                            );
                        }
                        return (true, Err(e));
                    },
                }
                i += 1;
            }
            (true, Ok(next))
        },
        Shape::ConstantBuffer { content, .. } | Shape::ParameterBlock { content, .. } => {
            match offset.step(content.offset, content.node.opens_set(), content.node.opens_slot()) {
                Some(child) => check_node(
                    &content.node,
                    child,
                    entered_set,
                    entered_slot,
                    entries,
                    next,
                ),
                None => (true, try_layout_entries_wowee(&content.node, entries, entered_set, next)),
            }
        },
        _ => (true, Ok(next)),
    }
}

/// Once the builder fails among the first `count` fields, the fields after
/// them have nothing left to check.
pub proof fn lemma_checked_after_error(
    fields: Vec<Field>,
    count: nat,
    total: nat,
    offset: Offset,
    entered: Arrival,
)
    requires
        count <= total <= fields@.len(),
        spec_checked_fields(fields, count, offset, entered),
        spec_emit_fields(fields, count, entered.set, entered.table) is Err,
    ensures
        spec_checked_fields(fields, total, offset, entered),
    decreases total,
{
    if count < total {
        lemma_checked_after_error(fields, count, (total - 1) as nat, offset, entered);
        lemma_emit_fields_error(fields, count, (total - 1) as nat, entered.set, entered.table);
    }
}

/// Whether the coordinates that a cursor derives in this layout are the
/// ones that the builder assigns. The check follows the builder through the
/// layout and compares, at every node that opens a set or a slot or is
/// bound as a resource, the set and the slot of the node's cursor with the
/// builder's. It accepts an array
/// or a resource only over plain elements.
pub fn check_agreement(root: &LayoutNode) -> (agreed: bool)
    ensures
        agreed == spec_checked(*root, Offset::spec_origin(), Arrival::start()),
        agreed ==> spec_bindings_agree(root),
{
    let mut entries: HashMap<usize, Vec<BindingDescriptor>> = HashMap::new();
    assert(table_view(entries) =~= Map::empty());
    let (agreed, _) = check_node(root, Offset::origin(), 0, 0, &mut entries, 0);
    proof {
        if agreed {
            lemma_checked_layouts_agree(root);
        }
    }
    agreed
}

} // verus!
