//! The binding-layout builder: which descriptor sets a layout needs, and what
//! occupies each slot of each set.
//!
//! The builder walks the tree on its own, without coordinates. It numbers the
//! slots of a set in the order in which their resources are met, and numbers
//! the sets in the order in which they are opened.

use crate::layout::{Field, Kind, LayoutNode, Shape, TextureShape};
use std::collections::HashMap;
use vstd::prelude::*;

verus! {

broadcast use vstd::std_specs::hash::group_hash_axioms;

/// How a buffer is bound.
#[derive(Clone, Copy, Debug, PartialEq, Eq, Structural)]
pub enum BufferBindingKind {
    Uniform,
    Storage { read_only: bool },
}

/// What occupies a slot.
#[derive(Clone, Copy, Debug, PartialEq, Eq, Structural)]
pub enum BindingKind {
    /// A filtering sampler.
    Sampler,
    /// A filterable, single-sampled texture viewed with this shape.
    Texture { shape: TextureShape },
    /// A buffer of at least `min_binding_size` bytes; zero asks for no
    /// minimum.
    Buffer { kind: BufferBindingKind, min_binding_size: usize },
}

/// The shader stages that see a binding.
#[derive(Clone, Copy, Debug, PartialEq, Eq, Structural)]
pub struct Visibility {
    pub vertex: bool,
    pub fragment: bool,
    pub compute: bool,
}

/// One entry of a descriptor set's layout.
#[derive(Clone, Copy, Debug, PartialEq, Eq, Structural)]
pub struct BindingDescriptor {
    pub binding: u32,
    pub visibility: Visibility,
    pub kind: BindingKind,
}

/// Why a layout cannot be given a binding layout.
#[derive(Clone, Copy, Debug, PartialEq, Eq, Structural)]
pub enum LayoutError {
    /// The layout holds a kind of binding that the builder does not handle.
    Unsupported(Kind),
    /// A buffer resource whose elements take up no bytes.
    EmptyElement,
    /// A set with more slots than a slot index can count.
    TooManyBindings,
    /// More sets than a set index can count.
    TooManySets,
}

/// The builder's state as plain values: the list of each set so far, and the
/// index that the next new set gets.
pub struct Table {
    pub sets: Map<usize, Seq<BindingDescriptor>>,
    pub next: usize,
}

/// What a map from set index to list holds.
pub open spec fn table_view(entries: HashMap<usize, Vec<BindingDescriptor>>) -> Map<
    usize,
    Seq<BindingDescriptor>,
> {
    Map::new(|set: usize| entries@.contains_key(set), |set: usize| entries@[set]@)
}

pub open spec fn all_stages() -> Visibility {
    Visibility { vertex: true, fragment: true, compute: true }
}

impl Table {
    pub open spec fn empty() -> Table {
        Table { sets: Map::empty(), next: 0 }
    }

    /// The table with an empty list at `set`, unless it has a list there. A
    /// list made this way uses up one set index.
    pub open spec fn with_set(self, set: usize) -> Result<Table, LayoutError> {
        if self.sets.contains_key(set) {
            Ok(self)
        } else if self.next == usize::MAX {
            Err(LayoutError::TooManySets)
        } else {
            Ok(Table { sets: self.sets.insert(set, Seq::empty()), next: (self.next + 1) as usize })
        }
    }

    /// The table with a new, empty set at the next index, replacing what was
    /// there.
    pub open spec fn with_new_set(self) -> Result<Table, LayoutError> {
        if self.next == usize::MAX {
            Err(LayoutError::TooManySets)
        } else {
            Ok(
                Table {
                    sets: self.sets.insert(self.next, Seq::empty()),
                    next: (self.next + 1) as usize,
                },
            )
        }
    }

    /// The table with one more descriptor at the end of the list of `set`,
    /// bound at the slot that equals the list's length before.
    pub open spec fn appended(self, set: usize, kind: BindingKind) -> Result<Table, LayoutError> {
        match self.with_set(set) {
            Ok(t) => {
                let list = t.sets[set];
                if list.len() > u32::MAX {
                    Err(LayoutError::TooManyBindings)
                } else {
                    Ok(
                        Table {
                            sets: t.sets.insert(
                                set,
                                list.push(
                                    BindingDescriptor {
                                        binding: list.len() as u32,
                                        visibility: all_stages(),
                                        kind,
                                    },
                                ),
                            ),
                            next: t.next,
                        },
                    )
                }
            },
            Err(e) => Err(e),
        }
    }

    /// The table that a failed attempt to add a descriptor to `set` leaves
    /// behind: the list of `set` may have been made.
    pub open spec fn left_by_append(self, set: usize) -> Table {
        match self.with_set(set) {
            Ok(t) => t,
            Err(_) => self,
        }
    }
}

/// The descriptor of a storage buffer over `element`.
pub open spec fn storage_kind(element: LayoutNode, read_only: bool) -> BindingKind {
    BindingKind::Buffer {
        kind: BufferBindingKind::Storage { read_only },
        min_binding_size: element.stride.uniform,
    }
}

/// The descriptor of the uniform buffer behind a container of `element`.
pub open spec fn uniform_kind(element: LayoutNode) -> BindingKind {
    BindingKind::Buffer {
        kind: BufferBindingKind::Uniform,
        min_binding_size: element.size.uniform,
    }
}

/// The table after the builder has walked `node` with `current` as the set
/// in use.
///
/// Plain data adds nothing. A struct adds what its children add, in order; an
/// array adds what its element adds. A sampler, a texture and a buffer
/// resource each add one descriptor to the current set. A constant buffer
/// and a parameter block first open a new set if their footprint takes up
/// set space; then they add a uniform buffer if their footprint takes up a
/// slot, and then what their element adds. A texture buffer or a shader
/// storage buffer is not handled.
pub open spec fn spec_emit(node: LayoutNode, current: usize, table: Table) -> Result<
    Table,
    LayoutError,
>
    decreases node, 0nat,
{
    match node.shape {
        Shape::Scalar => Ok(table),
        Shape::Vector => Ok(table),
        Shape::Matrix => Ok(table),
        Shape::Array { element, .. } => spec_emit(*element, current, table),
        Shape::Struct { fields } => spec_emit_fields(fields, fields@.len(), current, table),
        Shape::Sampler => table.appended(current, BindingKind::Sampler),
        Shape::Texture { shape, .. } => table.appended(current, BindingKind::Texture { shape }),
        Shape::RawBuffer { element } => spec_emit_storage(*element, true, current, table),
        Shape::MutableRawBuffer { element } => spec_emit_storage(*element, false, current, table),
        Shape::ConstantBuffer { footprint, content } => {
            if footprint.set > 0 {
                match table.with_new_set() {
                    Ok(opened) => match spec_emit_uniform(
                        footprint.slot > 0,
                        content.node,
                        table.next,
                        opened,
                    ) {
                        Ok(t) => spec_emit(content.node, table.next, t),
                        Err(e) => Err(e),
                    },
                    Err(e) => Err(e),
                }
            } else {
                match spec_emit_uniform(footprint.slot > 0, content.node, current, table) {
                    Ok(t) => spec_emit(content.node, current, t),
                    Err(e) => Err(e),
                }
            }
        },
        Shape::ParameterBlock { footprint, content } => {
            if footprint.set > 0 {
                match table.with_new_set() {
                    Ok(opened) => match spec_emit_uniform(
                        footprint.slot > 0,
                        content.node,
                        table.next,
                        opened,
                    ) {
                        Ok(t) => spec_emit(content.node, table.next, t),
                        Err(e) => Err(e),
                    },
                    Err(e) => Err(e),
                }
            } else {
                match spec_emit_uniform(footprint.slot > 0, content.node, current, table) {
                    Ok(t) => spec_emit(content.node, current, t),
                    Err(e) => Err(e),
                }
            }
        },
        Shape::TextureBuffer { .. } => Err(LayoutError::Unsupported(Kind::TextureBuffer)),
        Shape::ShaderStorageBuffer { .. } => Err(
            LayoutError::Unsupported(Kind::ShaderStorageBuffer),
        ),
    }
}

/// The table after the first `count` of `fields`.
pub open spec fn spec_emit_fields(
    fields: Vec<Field>,
    count: nat,
    current: usize,
    table: Table,
) -> Result<Table, LayoutError>
    decreases fields, count,
{
    if count == 0 || count > fields@.len() {
        Ok(table)
    } else {
        match spec_emit_fields(fields, (count - 1) as nat, current, table) {
            Ok(t) => spec_emit(fields@[count - 1].node, current, t),
            Err(e) => Err(e),
        }
    }
}

pub open spec fn spec_emit_storage(
    element: LayoutNode,
    read_only: bool,
    current: usize,
    table: Table,
) -> Result<Table, LayoutError> {
    if element.stride.uniform == 0 {
        Err(LayoutError::EmptyElement)
    } else {
        table.appended(current, storage_kind(element, read_only))
    }
}

pub open spec fn spec_emit_uniform(
    present: bool,
    element: LayoutNode,
    current: usize,
    table: Table,
) -> Result<Table, LayoutError> {
    if present {
        table.appended(current, uniform_kind(element))
    } else {
        Ok(table)
    }
}

/// The table that the builder's walk of `node` leaves behind where it fails:
/// what was added before the error was met stays added.
pub open spec fn spec_emit_left(node: LayoutNode, current: usize, table: Table) -> Table
    decreases node, 0nat,
{
    match node.shape {
        Shape::Array { element, .. } => spec_emit_left(*element, current, table),
        Shape::Struct { fields } => spec_emit_fields_left(fields, fields@.len(), current, table),
        Shape::Sampler => table.left_by_append(current),
        Shape::Texture { .. } => table.left_by_append(current),
        Shape::RawBuffer { element } => spec_emit_storage_left(*element, current, table),
        Shape::MutableRawBuffer { element } => spec_emit_storage_left(*element, current, table),
        Shape::ConstantBuffer { footprint, content } => {
            if footprint.set > 0 {
                match table.with_new_set() {
                    Ok(opened) => match spec_emit_uniform(
                        footprint.slot > 0,
                        content.node,
                        table.next,
                        opened,
                    ) {
                        Ok(t) => spec_emit_left(content.node, table.next, t),
                        Err(_) => opened.left_by_append(table.next),
                    },
                    Err(_) => table,
                }
            } else {
                match spec_emit_uniform(footprint.slot > 0, content.node, current, table) {
                    Ok(t) => spec_emit_left(content.node, current, t),
                    Err(_) => table.left_by_append(current),
                }
            }
        },
        Shape::ParameterBlock { footprint, content } => {
            if footprint.set > 0 {
                match table.with_new_set() {
                    Ok(opened) => match spec_emit_uniform(
                        footprint.slot > 0,
                        content.node,
                        table.next,
                        opened,
                    ) {
                        Ok(t) => spec_emit_left(content.node, table.next, t),
                        Err(_) => opened.left_by_append(table.next),
                    },
                    Err(_) => table,
                }
            } else {
                match spec_emit_uniform(footprint.slot > 0, content.node, current, table) {
                    Ok(t) => spec_emit_left(content.node, current, t),
                    Err(_) => table.left_by_append(current),
                }
            }
        },
        _ => table,
    }
}

/// The same of the first `count` of `fields`.
pub open spec fn spec_emit_fields_left(
    fields: Vec<Field>,
    count: nat,
    current: usize,
    table: Table,
) -> Table
    decreases fields, count,
{
    if count == 0 || count > fields@.len() {
        table
    } else {
        match spec_emit_fields(fields, (count - 1) as nat, current, table) {
            Ok(t) => spec_emit_left(fields@[count - 1].node, current, t),
            Err(_) => spec_emit_fields_left(fields, (count - 1) as nat, current, table),
        }
    }
}

pub open spec fn spec_emit_storage_left(element: LayoutNode, current: usize, table: Table) -> Table {
    if element.stride.uniform == 0 {
        table
    } else {
        table.left_by_append(current)
    }
}

/// Makes sure that `entries` has a list at `set`. Returns the index that the
/// next new set gets.
fn ensure_set(
    entries: &mut HashMap<usize, Vec<BindingDescriptor>>,
    set: usize,
    next_set_index: usize,
) -> (r: Result<usize, LayoutError>)
    ensures
        match (Table { sets: table_view(*old(entries)), next: next_set_index }).with_set(set) {
            Ok(t) => r == Ok::<usize, LayoutError>(t.next) && table_view(*final(entries))
                == t.sets,
            Err(e) => r == Err::<usize, LayoutError>(e) && table_view(*final(entries))
                == table_view(*old(entries)),
        },
{
    if entries.contains_key(&set) {
        assert(table_view(*entries) =~= table_view(*old(entries)));
        Ok(next_set_index)
    } else if next_set_index == usize::MAX {
        assert(table_view(*entries) =~= table_view(*old(entries)));
        Err(LayoutError::TooManySets)
    } else {
        entries.insert(set, Vec::new());
        assert(table_view(*entries) =~= table_view(*old(entries)).insert(set, Seq::empty()));
        Ok(next_set_index + 1)
    }
}

/// Appends a descriptor of `kind` to the list of `set`, at the slot that
/// equals the list's length.
pub(crate) fn append(
    entries: &mut HashMap<usize, Vec<BindingDescriptor>>,
    set: usize,
    next_set_index: usize,
    kind: BindingKind,
) -> (r: Result<usize, LayoutError>)
    ensures
        match (Table { sets: table_view(*old(entries)), next: next_set_index }).appended(
            set,
            kind,
        ) {
            Ok(t) => r == Ok::<usize, LayoutError>(t.next) && table_view(*final(entries))
                == t.sets,
            Err(e) => r == Err::<usize, LayoutError>(e) && table_view(*final(entries)) == (Table {
                sets: table_view(*old(entries)),
                next: next_set_index,
            }).left_by_append(set).sets,
        },
{
    let next = match ensure_set(entries, set, next_set_index) {
        Ok(next) => next,
        Err(e) => { return Err(e); },
    };
    let ghost before = table_view(*entries);
    let taken = match entries.get(&set) {
        Some(list) => list.len(),
        None => 0,
    };
    if taken > u32::MAX as usize {
        return Err(LayoutError::TooManyBindings);
    }
    let mut list = match entries.remove(&set) {
        Some(list) => list,
        None => Vec::new(),
    };
    assert(list@ == before[set]);
    let binding = list.len() as u32;
    list.push(
        BindingDescriptor {
            binding,
            visibility: Visibility { vertex: true, fragment: true, compute: true },
            kind,
        },
    );
    entries.insert(set, list);
    assert(table_view(*entries) =~= before.insert(set, list@));
    Ok(next)
}

fn append_storage(
    element: &LayoutNode,
    read_only: bool,
    entries: &mut HashMap<usize, Vec<BindingDescriptor>>,
    set: usize,
    next_set_index: usize,
) -> (r: Result<usize, LayoutError>)
    ensures
        match spec_emit_storage(
            *element,
            read_only,
            set,
            Table { sets: table_view(*old(entries)), next: next_set_index },
        ) {
            Ok(t) => r == Ok::<usize, LayoutError>(t.next) && table_view(*final(entries))
                == t.sets,
            Err(e) => r == Err::<usize, LayoutError>(e) && table_view(*final(entries))
                == spec_emit_storage_left(
                *element,
                set,
                Table { sets: table_view(*old(entries)), next: next_set_index },
            ).sets,
        },
{
    if element.stride.uniform == 0 {
        assert(table_view(*entries) =~= table_view(*old(entries)));
        return Err(LayoutError::EmptyElement);
    }
    let kind = BindingKind::Buffer {
        kind: BufferBindingKind::Storage { read_only },
        min_binding_size: element.stride.uniform,
    };
    append(entries, set, next_set_index, kind)
}

fn append_uniform(
    present: bool,
    element: &LayoutNode,
    entries: &mut HashMap<usize, Vec<BindingDescriptor>>,
    set: usize,
    next_set_index: usize,
) -> (r: Result<usize, LayoutError>)
    ensures
        match spec_emit_uniform(
            present,
            *element,
            set,
            Table { sets: table_view(*old(entries)), next: next_set_index },
        ) {
            Ok(t) => r == Ok::<usize, LayoutError>(t.next) && table_view(*final(entries))
                == t.sets,
            Err(e) => r == Err::<usize, LayoutError>(e) && table_view(*final(entries)) == (Table {
                sets: table_view(*old(entries)),
                next: next_set_index,
            }).left_by_append(set).sets,
        },
{
    if !present {
        assert(table_view(*entries) =~= table_view(*old(entries)));
        return Ok(next_set_index);
    }
    let kind = BindingKind::Buffer {
        kind: BufferBindingKind::Uniform,
        min_binding_size: element.size.uniform,
    };
    append(entries, set, next_set_index, kind)
}

/// Walks `tl` and adds to `entries` the descriptors of every binding in it,
/// as far as the layout can be given a binding layout.
///
/// `current_set_index` is the set that bindings go to until a parameter block
/// opens another; `next_set_index` is the index that the next new set gets.
/// Returns the index that the next new set gets after the walk. On an error
/// `entries` holds what was added before the walk met it.
pub fn try_layout_entries_wowee(
    tl: &LayoutNode,
    entries: &mut HashMap<usize, Vec<BindingDescriptor>>,
    current_set_index: usize,
    next_set_index: usize,
) -> (r: Result<usize, LayoutError>)
    ensures
        match spec_emit(
            *tl,
            current_set_index,
            Table { sets: table_view(*old(entries)), next: next_set_index },
        ) {
            Ok(t) => r == Ok::<usize, LayoutError>(t.next) && table_view(*final(entries))
                == t.sets,
            Err(e) => r == Err::<usize, LayoutError>(e) && table_view(*final(entries))
                == spec_emit_left(
                *tl,
                current_set_index,
                Table { sets: table_view(*old(entries)), next: next_set_index },
            ).sets,
        },
    decreases *tl,
{
    match &tl.shape {
        Shape::Scalar | Shape::Vector | Shape::Matrix => {
            assert(table_view(*entries) =~= table_view(*old(entries)));
            Ok(next_set_index)
        },
        Shape::Array { element, .. } => try_layout_entries_wowee(
            &**element,
            entries,
            current_set_index,
            next_set_index,
        ),
        Shape::Struct { fields } => {
            let mut next = next_set_index;
            let mut i: usize = 0;
            while i < fields.len()
                invariant
                    i <= fields.len(),
                    tl.shape == (Shape::Struct { fields: *fields }),
                    spec_emit_left(
                        *tl,
                        current_set_index,
                        Table { sets: table_view(*old(entries)), next: next_set_index },
                    ) == spec_emit_fields_left(
                        *fields,
                        fields@.len(),
                        current_set_index,
                        Table { sets: table_view(*old(entries)), next: next_set_index },
                    ),
                    spec_emit_fields(
                        *fields,
                        i as nat,
                        current_set_index,
                        Table { sets: table_view(*old(entries)), next: next_set_index },
                    ) == Ok::<Table, LayoutError>(
                        Table { sets: table_view(*entries), next },
                    ),
                decreases fields.len() - i,
            {
                let ghost total = fields@.len();
                match try_layout_entries_wowee(&fields[i].node, entries, current_set_index, next) {
                    Ok(n) => {
                        next = n;
                    },
                    Err(e) => {
                        proof {
                            lemma_emit_fields_error(
                                *fields,
                                (i + 1) as nat,
                                total,
                                current_set_index,
                                Table { sets: table_view(*old(entries)), next: next_set_index },
                            );
                        }
                        return Err(e);
                    },
                }
                i += 1;
            }
            Ok(next)
        },
        Shape::Sampler => append(entries, current_set_index, next_set_index, BindingKind::Sampler),
        Shape::Texture { shape, .. } => append(
            entries,
            current_set_index,
            next_set_index,
            BindingKind::Texture { shape: *shape },
        ),
        Shape::RawBuffer { element } => append_storage(
            &**element,
            true,
            entries,
            current_set_index,
            next_set_index,
        ),
        Shape::MutableRawBuffer { element } => append_storage(
            &**element,
            false,
            entries,
            current_set_index,
            next_set_index,
        ),
        Shape::ConstantBuffer { footprint, content }
        | Shape::ParameterBlock { footprint, content } => {
            let mut set = current_set_index;
            let mut next = next_set_index;
            if footprint.set > 0 {
                if next_set_index == usize::MAX {
                    assert(table_view(*entries) =~= table_view(*old(entries)));
                    return Err(LayoutError::TooManySets);
                }
                set = next_set_index;
                entries.insert(set, Vec::new());
                next = next_set_index + 1;
                assert(table_view(*entries) =~= table_view(*old(entries)).insert(
                    set,
                    Seq::empty(),
                ));
            }
            let next = match append_uniform(footprint.slot > 0, &content.node, entries, set, next) {
                Ok(n) => n,
                Err(e) => { return Err(e); },
            };
            try_layout_entries_wowee(&content.node, entries, set, next)
        },
        Shape::TextureBuffer { .. } => {
            assert(table_view(*entries) =~= table_view(*old(entries)));
            Err(LayoutError::Unsupported(Kind::TextureBuffer))
        },
        Shape::ShaderStorageBuffer { .. } => {
            assert(table_view(*entries) =~= table_view(*old(entries)));
            Err(LayoutError::Unsupported(Kind::ShaderStorageBuffer))
        },
    }
}

/// The binding layout of a whole parameter layout, if it can be given one:
/// the walk from its root, starting with no set at all.
pub fn try_base_layout_entries(tl: &LayoutNode) -> (r: Result<
    HashMap<usize, Vec<BindingDescriptor>>,
    LayoutError,
>)
    ensures
        match spec_emit(*tl, 0, Table::empty()) {
            Ok(t) => r is Ok && table_view(r.unwrap()) == t.sets,
            Err(e) => r is Err && r.unwrap_err() == e,
        },
{
    let mut entries: HashMap<usize, Vec<BindingDescriptor>> = HashMap::new();
    assert(table_view(entries) =~= Map::empty());
    match try_layout_entries_wowee(tl, &mut entries, 0, 0) {
        Ok(_) => Ok(entries),
        Err(e) => Err(e),
    }
}

/// Walks `tl` and adds to `entries` the descriptors of every binding in it.
///
/// `current_set_index` is the set that bindings go to until a container
/// opens another; `next_set_index` is the index that the next new set gets.
/// Returns the index that the next new set gets after the walk. The layout
/// must be one that can be given a binding layout: a layout with a kind of
/// binding that the builder does not handle is no input to this function.
pub fn layout_entries_wowee(
    tl: &LayoutNode,
    entries: &mut HashMap<usize, Vec<BindingDescriptor>>,
    current_set_index: usize,
    next_set_index: usize,
) -> (next: usize)
    requires
        spec_emit(
            *tl,
            current_set_index,
            Table { sets: table_view(*old(entries)), next: next_set_index },
        ) is Ok,
    ensures
        next == spec_emit(
            *tl,
            current_set_index,
            Table { sets: table_view(*old(entries)), next: next_set_index },
        ).unwrap().next,
        table_view(*final(entries)) == spec_emit(
            *tl,
            current_set_index,
            Table { sets: table_view(*old(entries)), next: next_set_index },
        ).unwrap().sets,
{
    try_layout_entries_wowee(tl, entries, current_set_index, next_set_index).unwrap()
}

/// The binding layout of a whole parameter layout: the walk from its root,
/// starting with no set at all. The layout must be one that can be given a
/// binding layout.
pub fn base_layout_entries(tl: &LayoutNode) -> (entries: HashMap<usize, Vec<BindingDescriptor>>)
    requires
        spec_emit(*tl, 0, Table::empty()) is Ok,
    ensures
        table_view(entries) == spec_emit(*tl, 0, Table::empty()).unwrap().sets,
{
    let mut entries: HashMap<usize, Vec<BindingDescriptor>> = HashMap::new();
    assert(table_view(entries) =~= Map::empty());
    let _ = layout_entries_wowee(tl, &mut entries, 0, 0);
    entries
}

/// An error among the first `count` fields is the error of the whole list.
pub proof fn lemma_emit_fields_error(
    fields: Vec<Field>,
    count: nat,
    total: nat,
    current: usize,
    table: Table,
)
    requires
        count <= total <= fields@.len(),
        spec_emit_fields(fields, count, current, table) is Err,
    ensures
        spec_emit_fields(fields, total, current, table) == spec_emit_fields(
            fields,
            count,
            current,
            table,
        ),
        spec_emit_fields_left(fields, total, current, table) == spec_emit_fields_left(
            fields,
            count,
            current,
            table,
        ),
    decreases total,
{
    if count < total {
        lemma_emit_fields_error(fields, count, (total - 1) as nat, current, table);
    }
}

} // verus!
