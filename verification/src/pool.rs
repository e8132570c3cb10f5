//! The resource pool: the buffers, textures, texture views and samplers that
//! stand behind the bindings, each keyed by descriptor set and slot.

use crate::binding::{BindingDescriptor, BindingKind, BufferBindingKind};
use crate::encode::{zeroed, zeros};
use crate::layout::TextureShape;
use crate::store::{flat, lookup};
use std::collections::HashMap;
use vstd::prelude::*;

verus! {

broadcast use vstd::std_specs::hash::group_hash_axioms;

/// What a buffer may be used for.
#[derive(Clone, Copy, Debug, PartialEq, Eq, Structural)]
pub struct BufferUsages {
    pub copy_src: bool,
    pub copy_dst: bool,
    pub uniform: bool,
    pub storage: bool,
}

/// A buffer: its usage and its bytes. Its size is the number of its bytes.
#[derive(Debug)]
pub struct Buffer {
    pub usage: BufferUsages,
    pub contents: Vec<u8>,
}

/// A buffer as plain values.
pub struct BufferImage {
    pub usage: BufferUsages,
    pub bytes: Seq<u8>,
}

impl View for Buffer {
    type V = BufferImage;

    open spec fn view(&self) -> BufferImage {
        BufferImage { usage: self.usage, bytes: self.contents@ }
    }
}

/// The extent of a texture.
#[derive(Clone, Copy, Debug, PartialEq, Eq, Structural)]
pub struct Extent3d {
    pub width: u32,
    pub height: u32,
    pub depth_or_array_layers: u32,
}

/// A texture: its extent and its pixel data.
#[derive(Debug)]
pub struct Texture {
    pub size: Extent3d,
    pub pixels: Vec<u8>,
}

/// A texture as plain values.
pub struct TextureImage {
    pub size: Extent3d,
    pub pixels: Seq<u8>,
}

impl View for Texture {
    type V = TextureImage;

    open spec fn view(&self) -> TextureImage {
        TextureImage { size: self.size, pixels: self.pixels@ }
    }
}

/// A view of the texture at the same set and slot.
#[derive(Clone, Copy, Debug, PartialEq, Eq, Structural)]
pub struct TextureView {
    pub shape: TextureShape,
}

/// A sampler in its default configuration.
#[derive(Clone, Copy, Debug, PartialEq, Eq, Structural)]
pub struct Sampler {
}

/// The pool.
pub struct BindingResources {
    pub buffers: HashMap<usize, HashMap<usize, Buffer>>,
    pub texture_views: HashMap<usize, HashMap<usize, TextureView>>,
    pub textures: HashMap<usize, HashMap<usize, Texture>>,
    pub samplers: HashMap<usize, HashMap<usize, Sampler>>,
}

/// The pool as plain values, each resource under the pair of its set and
/// slot.
pub struct PoolView {
    pub buffers: Map<(usize, usize), BufferImage>,
    pub texture_views: Map<(usize, usize), TextureView>,
    pub textures: Map<(usize, usize), TextureImage>,
    pub samplers: Map<(usize, usize), Sampler>,
}

/// The buffers of a store as plain values.
pub open spec fn buffer_images(m: HashMap<usize, HashMap<usize, Buffer>>) -> Map<
    (usize, usize),
    BufferImage,
> {
    Map::new(|k: (usize, usize)| flat(m).contains_key(k), |k: (usize, usize)| flat(m)[k]@)
}

/// The textures of a store as plain values.
pub open spec fn texture_images(m: HashMap<usize, HashMap<usize, Texture>>) -> Map<
    (usize, usize),
    TextureImage,
> {
    Map::new(|k: (usize, usize)| flat(m).contains_key(k), |k: (usize, usize)| flat(m)[k]@)
}

impl View for BindingResources {
    type V = PoolView;

    open spec fn view(&self) -> PoolView {
        PoolView {
            buffers: buffer_images(self.buffers),
            texture_views: flat(self.texture_views),
            textures: texture_images(self.textures),
            samplers: flat(self.samplers),
        }
    }
}

impl BindingResources {
    /// A pool with nothing in it.
    pub fn new() -> (pool: BindingResources)
        ensures
            pool@ == PoolView::empty(),
    {
        let pool = BindingResources {
            buffers: HashMap::new(),
            texture_views: HashMap::new(),
            textures: HashMap::new(),
            samplers: HashMap::new(),
        };
        assert(pool@.buffers =~= Map::empty());
        assert(pool@.texture_views =~= Map::empty());
        assert(pool@.textures =~= Map::empty());
        assert(pool@.samplers =~= Map::empty());
        pool
    }

    /// A pool that holds `buffers` and nothing else.
    pub fn with_buffers(buffers: HashMap<usize, HashMap<usize, Buffer>>) -> (pool: BindingResources)
        ensures
            pool@ == (PoolView { buffers: buffer_images(buffers), ..PoolView::empty() }),
            pool.buffers == buffers,
    {
        let pool = BindingResources {
            buffers,
            texture_views: HashMap::new(),
            textures: HashMap::new(),
            samplers: HashMap::new(),
        };
        assert(pool@.texture_views =~= Map::empty());
        assert(pool@.textures =~= Map::empty());
        assert(pool@.samplers =~= Map::empty());
        pool
    }
}

impl PoolView {
    pub open spec fn empty() -> PoolView {
        PoolView {
            buffers: Map::empty(),
            texture_views: Map::empty(),
            textures: Map::empty(),
            samplers: Map::empty(),
        }
    }
}

/// The usage of the buffer behind a binding: every buffer can be copied to; a
/// uniform buffer and a writable storage buffer can be copied from as well.
pub open spec fn spec_usage_for(kind: BufferBindingKind) -> BufferUsages {
    match kind {
        BufferBindingKind::Uniform => BufferUsages {
            copy_src: true,
            copy_dst: true,
            uniform: true,
            storage: false,
        },
        BufferBindingKind::Storage { read_only } => BufferUsages {
            copy_src: !read_only,
            copy_dst: true,
            uniform: false,
            storage: true,
        },
    }
}

pub fn usage_for(kind: BufferBindingKind) -> (usage: BufferUsages)
    ensures
        usage == spec_usage_for(kind),
{
    match kind {
        BufferBindingKind::Uniform => BufferUsages {
            copy_src: true,
            copy_dst: true,
            uniform: true,
            storage: false,
        },
        BufferBindingKind::Storage { read_only } => BufferUsages {
            copy_src: !read_only,
            copy_dst: true,
            uniform: false,
            storage: true,
        },
    }
}

/// The buffers of one set: for each buffer descriptor among the first `count`
/// of `list`, a zeroed buffer of the descriptor's size at the descriptor's
/// slot. A later descriptor at the same slot takes the place of an earlier
/// one.
pub open spec fn spec_set_buffers(list: Seq<BindingDescriptor>, count: nat) -> Map<
    usize,
    BufferImage,
>
    decreases count,
{
    if count == 0 || count > list.len() {
        Map::empty()
    } else {
        let rest = spec_set_buffers(list, (count - 1) as nat);
        match list[count - 1].kind {
            BindingKind::Buffer { kind, min_binding_size } => rest.insert(
                list[count - 1].binding as usize,
                BufferImage { usage: spec_usage_for(kind), bytes: zeros(min_binding_size as nat) },
            ),
            _ => rest,
        }
    }
}

/// One set's buffers as plain values.
pub open spec fn set_images(inner: HashMap<usize, Buffer>) -> Map<usize, BufferImage> {
    Map::new(|slot: usize| inner@.contains_key(slot), |slot: usize| inner@[slot]@)
}

fn set_buffers_from_layout(list: &Vec<BindingDescriptor>) -> (out: HashMap<usize, Buffer>)
    ensures
        set_images(out) == spec_set_buffers(list@, list@.len()),
{
    let mut out: HashMap<usize, Buffer> = HashMap::new();
    let mut i: usize = 0;
    assert(set_images(out) =~= spec_set_buffers(list@, 0));
    while i < list.len()
        invariant
            i <= list.len(),
            set_images(out) == spec_set_buffers(list@, i as nat),
        decreases list.len() - i,
    {
        let ghost before = set_images(out);
        match list[i].kind {
            BindingKind::Buffer { kind, min_binding_size } => {
                let buffer = Buffer { usage: usage_for(kind), contents: zeroed(min_binding_size) };
                out.insert(list[i].binding as usize, buffer);
                assert(set_images(out) =~= before.insert(list[i as int].binding as usize, buffer@));
            },
            _ => {},
        }
        i += 1;
    }
    out
}

/// The buffers that a binding layout asks for: one store entry for each
/// buffer descriptor, under the descriptor's set and slot, zeroed and of the
/// descriptor's size. Every set of the layout gets a map, also one without
/// buffers.
pub fn buffers_from_layout(layout_entries: &HashMap<usize, Vec<BindingDescriptor>>) -> (out: HashMap<
    usize,
    HashMap<usize, Buffer>,
>)
    ensures
        out@.dom() == layout_entries@.dom(),
        forall|set: usize| #[trigger]
            layout_entries@.contains_key(set) ==> set_images(out@[set]) == spec_set_buffers(
                layout_entries@[set]@,
                layout_entries@[set]@.len(),
            ),
{
    let mut out: HashMap<usize, HashMap<usize, Buffer>> = HashMap::new();
    for key in it: layout_entries.keys()
        invariant
            it.seq().unref().to_set() == layout_entries@.dom(),
            forall|set: usize| #[trigger]
                layout_entries@.contains_key(set) ==> out@.contains_key(set) || exists|j: int|
                    it.index() <= j < it.seq().len() && *it.seq()[j] == set,
            forall|set: usize| #[trigger]
                out@.contains_key(set) ==> layout_entries@.contains_key(set) && set_images(
                    out@[set],
                ) == spec_set_buffers(layout_entries@[set]@, layout_entries@[set]@.len()),
    {
        assert(it.seq().unref()[it.index()] == *key);
        assert(it.seq().unref().to_set().contains(*key));
        match layout_entries.get(key) {
            Some(list) => {
                let inner = set_buffers_from_layout(list);
                out.insert(*key, inner);
            },
            None => {},
        }
    }
    assert(out@.dom() =~= layout_entries@.dom());
    out
}

/// What a bind group entry binds: the resource of that kind at a set and
/// slot of the pool.
#[derive(Clone, Copy, Debug, PartialEq, Eq, Structural)]
pub enum BindingResource {
    /// The whole buffer.
    Buffer { set: usize, slot: usize },
    TextureView { set: usize, slot: usize },
    Sampler { set: usize, slot: usize },
}

/// One entry of a bind group.
#[derive(Clone, Copy, Debug, PartialEq, Eq, Structural)]
pub struct BindGroupEntry {
    pub binding: u32,
    pub resource: BindingResource,
}

/// A descriptor for which the pool holds no resource.
#[derive(Clone, Copy, Debug, PartialEq, Eq, Structural)]
pub struct MissingResource {
}

/// The entry that binds the resource for `descriptor` in `set`: the pool's
/// buffer, texture view or sampler at the descriptor's slot. `None` where the
/// pool has none.
pub open spec fn spec_entry_for(descriptor: BindingDescriptor, set: usize, pool: PoolView) -> Option<
    BindGroupEntry,
> {
    let slot = descriptor.binding as usize;
    match descriptor.kind {
        BindingKind::Buffer { .. } => if pool.buffers.contains_key((set, slot)) {
            Some(
                BindGroupEntry {
                    binding: descriptor.binding,
                    resource: BindingResource::Buffer { set, slot },
                },
            )
        } else {
            None
        },
        BindingKind::Texture { .. } => if pool.texture_views.contains_key((set, slot)) {
            Some(
                BindGroupEntry {
                    binding: descriptor.binding,
                    resource: BindingResource::TextureView { set, slot },
                },
            )
        } else {
            None
        },
        BindingKind::Sampler => if pool.samplers.contains_key((set, slot)) {
            Some(
                BindGroupEntry {
                    binding: descriptor.binding,
                    resource: BindingResource::Sampler { set, slot },
                },
            )
        } else {
            None
        },
    }
}

/// Whether the pool holds a resource for every descriptor of `list`.
pub open spec fn spec_set_bindable(list: Seq<BindingDescriptor>, set: usize, pool: PoolView) -> bool {
    forall|i: int| 0 <= i < list.len() ==> (#[trigger] spec_entry_for(list[i], set, pool)) is Some
}

/// The entries of one bind group, in the order of the descriptors.
pub open spec fn spec_set_entries(list: Seq<BindingDescriptor>, set: usize, pool: PoolView) -> Seq<
    BindGroupEntry,
> {
    Seq::new(list.len(), |i: int| spec_entry_for(list[i], set, pool).unwrap())
}

fn entry_for(descriptor: &BindingDescriptor, set: usize, binding_resources: &BindingResources) -> (r:
    Option<BindGroupEntry>)
    ensures
        r == spec_entry_for(*descriptor, set, binding_resources@),
{
    let slot = descriptor.binding as usize;
    let present = match descriptor.kind {
        BindingKind::Buffer { .. } => lookup(&binding_resources.buffers, set, slot).is_some(),
        BindingKind::Texture { .. } => lookup(
            &binding_resources.texture_views,
            set,
            slot,
        ).is_some(),
        BindingKind::Sampler => lookup(&binding_resources.samplers, set, slot).is_some(),
    };
    if !present {
        return None;
    }
    let resource = match descriptor.kind {
        BindingKind::Buffer { .. } => BindingResource::Buffer { set, slot },
        BindingKind::Texture { .. } => BindingResource::TextureView { set, slot },
        BindingKind::Sampler => BindingResource::Sampler { set, slot },
    };
    Some(BindGroupEntry { binding: descriptor.binding, resource })
}

fn set_entries_from_layout(
    list: &Vec<BindingDescriptor>,
    set: usize,
    binding_resources: &BindingResources,
) -> (r: Option<Vec<BindGroupEntry>>)
    ensures
        r is Some <==> spec_set_bindable(list@, set, binding_resources@),
        r is Some ==> r.unwrap()@ == spec_set_entries(list@, set, binding_resources@),
{
    let mut out: Vec<BindGroupEntry> = Vec::new();
    let mut i: usize = 0;
    while i < list.len()
        invariant
            i <= list.len(),
            out@.len() == i,
            forall|j: int|
                0 <= j < i ==> (#[trigger] spec_entry_for(list@[j], set, binding_resources@))
                    == Some(out@[j]),
        decreases list.len() - i,
    {
        match entry_for(&list[i], set, binding_resources) {
            Some(entry) => {
                out.push(entry);
            },
            None => {
                return None;
            },
        }
        i += 1;
    }
    assert(out@ =~= spec_set_entries(list@, set, binding_resources@));
    Some(out)
}

/// The bind group entries of a binding layout, if the pool can serve it:
/// for each set, one entry for each descriptor, bound to the pool's resource
/// at the descriptor's slot. Fails where the pool lacks a resource for a
/// descriptor.
pub fn try_bind_group_entries_from_layout(
    layout_entries: &HashMap<usize, Vec<BindingDescriptor>>,
    binding_resources: &BindingResources,
) -> (r: Result<HashMap<usize, Vec<BindGroupEntry>>, MissingResource>)
    ensures
        r is Ok <==> forall|set: usize| #[trigger]
            layout_entries@.contains_key(set) ==> spec_set_bindable(
                layout_entries@[set]@,
                set,
                binding_resources@,
            ),
        r is Ok ==> r.unwrap()@.dom() == layout_entries@.dom(),
        r is Ok ==> forall|set: usize| #[trigger]
            layout_entries@.contains_key(set) ==> r.unwrap()@[set]@ == spec_set_entries(
                layout_entries@[set]@,
                set,
                binding_resources@,
            ),
{
    let mut out: HashMap<usize, Vec<BindGroupEntry>> = HashMap::new();
    for key in it: layout_entries.keys()
        invariant
            it.seq().unref().to_set() == layout_entries@.dom(),
            forall|set: usize| #[trigger]
                layout_entries@.contains_key(set) ==> out@.contains_key(set) || exists|j: int|
                    it.index() <= j < it.seq().len() && *it.seq()[j] == set,
            forall|set: usize| #[trigger]
                out@.contains_key(set) ==> layout_entries@.contains_key(set) && spec_set_bindable(
                    layout_entries@[set]@,
                    set,
                    binding_resources@,
                ) && out@[set]@ == spec_set_entries(
                    layout_entries@[set]@,
                    set,
                    binding_resources@,
                ),
    {
        assert(it.seq().unref()[it.index()] == *key);
        assert(it.seq().unref().to_set().contains(*key));
        match layout_entries.get(key) {
            Some(list) => {
                match set_entries_from_layout(list, *key, binding_resources) {
                    Some(entries) => {
                        out.insert(*key, entries);
                    },
                    None => {
                        return Err(MissingResource {  });
                    },
                }
            },
            None => {},
        }
    }
    assert(out@.dom() =~= layout_entries@.dom());
    Ok(out)
}

/// Whether the pool holds a resource for every descriptor of the layout.
pub open spec fn spec_bindable(
    layout_entries: HashMap<usize, Vec<BindingDescriptor>>,
    pool: PoolView,
) -> bool {
    forall|set: usize| #[trigger]
        layout_entries@.contains_key(set) ==> spec_set_bindable(layout_entries@[set]@, set, pool)
}

/// The bind group entries of a binding layout: for each set, one entry for
/// each descriptor, in the order of the descriptors, bound to the pool's
/// resource at the descriptor's slot. The pool must hold a resource for
/// every descriptor: a layout that the pool cannot serve is no input to this
/// function.
pub fn bind_group_entries_from_layout(
    layout_entries: &HashMap<usize, Vec<BindingDescriptor>>,
    binding_resources: &BindingResources,
) -> (groups: HashMap<usize, Vec<BindGroupEntry>>)
    requires
        spec_bindable(*layout_entries, binding_resources@),
    ensures
        groups@.dom() == layout_entries@.dom(),
        forall|set: usize| #[trigger]
            layout_entries@.contains_key(set) ==> groups@[set]@ == spec_set_entries(
                layout_entries@[set]@,
                set,
                binding_resources@,
            ),
{
    try_bind_group_entries_from_layout(layout_entries, binding_resources).unwrap()
}

} // verus!
