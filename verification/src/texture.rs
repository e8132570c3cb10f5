//! Texture and sampler values. A texture value creates its pool entries on
//! its first write, replaces them when its extent has changed, and uploads
//! all of its pixels every time. A sampler is created once.

use crate::cursor::Cursor;
use crate::layout::TextureShape;
use crate::pool::{
    BindingResources, Extent3d, PoolView, Sampler, Texture, TextureImage, TextureView,
};
use crate::store::{lookup, put, take};
use crate::writable::{Writable, WriteError};
use vstd::prelude::*;

verus! {

broadcast use vstd::std_specs::hash::group_hash_axioms;

/// An image of four bytes per pixel: red, green, blue, alpha.
pub struct RgbaImage {
    pub width: u32,
    pub height: u32,
    pub data: Vec<u8>,
}

/// The six faces of a cube map. The first face gives the dimensions of all.
pub struct RgbaSkybox {
    pub px: RgbaImage,
    pub nx: RgbaImage,
    pub py: RgbaImage,
    pub ny: RgbaImage,
    pub pz: RgbaImage,
    pub nz: RgbaImage,
}

/// The dimensionality of a texture's storage.
#[derive(Clone, Copy, Debug, PartialEq, Eq, Structural)]
pub enum TextureDimension {
    D1,
    D2,
    D3,
}

/// How the texels of a texture are stored.
#[derive(Clone, Copy, Debug, PartialEq, Eq, Structural)]
pub enum TextureFormat {
    Rgba8UnormSrgb,
}

/// What a texture may be used for.
#[derive(Clone, Copy, Debug, PartialEq, Eq, Structural)]
pub struct TextureUsages {
    pub copy_dst: bool,
    pub texture_binding: bool,
}

/// What a texture is created from.
#[derive(Clone, Copy, Debug, PartialEq, Eq, Structural)]
pub struct TextureDescriptor {
    pub size: Extent3d,
    pub mip_level_count: u32,
    pub sample_count: u32,
    pub dimension: TextureDimension,
    pub format: TextureFormat,
    pub usage: TextureUsages,
}

/// What a texture view is created from.
#[derive(Clone, Copy, Debug, PartialEq, Eq, Structural)]
pub struct TextureViewDescriptor {
    pub dimension: TextureShape,
}

/// The number of layers of a cube map.
pub const CUBE_FACES: u32 = 6;

impl RgbaSkybox {
    pub open spec fn spec_extent(&self) -> Extent3d {
        Extent3d {
            width: self.px.width,
            height: self.px.height,
            depth_or_array_layers: CUBE_FACES,
        }
    }

    /// The pixels of the six faces, one face after the other.
    pub open spec fn spec_as_bytevec(&self) -> Seq<u8> {
        self.px.data@ + self.nx.data@ + self.py.data@ + self.ny.data@ + self.pz.data@
            + self.nz.data@
    }

    pub fn dimensions(&self) -> (r: (u32, u32))
        ensures
            r == (self.px.width, self.px.height),
    {
        (self.px.width, self.px.height)
    }

    pub fn width(&self) -> (r: u32)
        ensures
            r == self.px.width,
    {
        self.px.width
    }

    pub fn height(&self) -> (r: u32)
        ensures
            r == self.px.height,
    {
        self.px.height
    }

    pub fn extent(&self) -> (r: Extent3d)
        ensures
            r == self.spec_extent(),
    {
        Extent3d { width: self.width(), height: self.height(), depth_or_array_layers: CUBE_FACES }
    }

    pub fn texture_format(&self) -> (r: TextureFormat)
        ensures
            r == TextureFormat::Rgba8UnormSrgb,
    {
        TextureFormat::Rgba8UnormSrgb
    }

    /// The texture to create for this value: six two-dimensional layers of
    /// its dimensions, one mip level, one sample.
    pub fn descriptor(&self) -> (r: TextureDescriptor)
        ensures
            r == (TextureDescriptor {
                size: self.spec_extent(),
                mip_level_count: 1,
                sample_count: 1,
                dimension: TextureDimension::D2,
                format: TextureFormat::Rgba8UnormSrgb,
                usage: TextureUsages { copy_dst: true, texture_binding: true },
            }),
    {
        TextureDescriptor {
            size: self.extent(),
            mip_level_count: 1,
            sample_count: 1,
            dimension: TextureDimension::D2,
            format: self.texture_format(),
            usage: TextureUsages { copy_dst: true, texture_binding: true },
        }
    }

    /// The view to create for this value: a cube.
    pub fn view_descriptor(&self) -> (r: TextureViewDescriptor)
        ensures
            r == (TextureViewDescriptor { dimension: TextureShape::Cube }),
    {
        TextureViewDescriptor { dimension: TextureShape::Cube }
    }

    pub fn as_bytevec(&self) -> (bytes: Vec<u8>)
        ensures
            bytes@ == self.spec_as_bytevec(),
    {
        let mut bytes: Vec<u8> = Vec::new();
        bytes.extend_from_slice(self.px.data.as_slice());
        bytes.extend_from_slice(self.nx.data.as_slice());
        bytes.extend_from_slice(self.py.data.as_slice());
        bytes.extend_from_slice(self.ny.data.as_slice());
        bytes.extend_from_slice(self.pz.data.as_slice());
        bytes.extend_from_slice(self.nz.data.as_slice());
        bytes
    }

    pub fn bytes_per_block(&self) -> (r: u32)
        ensures
            r == 4,
    {
        4
    }

    /// The number of bytes of one row of a face, where a word can hold it.
    pub fn bytes_per_row(&self) -> (r: Option<u32>)
        ensures
            r is Some <==> 4 * self.px.width <= u32::MAX,
            r is Some ==> r.unwrap() == 4 * self.px.width,
    {
        self.bytes_per_block().checked_mul(self.width())
    }

    /// Whether the pool needs a new texture for this value at `key`: it has
    /// none there, or one of another extent.
    pub open spec fn spec_needs_texture(&self, pool: PoolView, key: (usize, usize)) -> bool {
        !pool.textures.contains_key(key) || pool.textures[key].size != self.spec_extent()
    }
}

impl Writable for RgbaSkybox {
    /// The texture at the cursor's set and slot holds all pixels of the
    /// value. Where the pool needed a new texture, texture and view are new;
    /// otherwise both are the ones that were there.
    open spec fn spec_written(&self, c: Cursor, pool: PoolView) -> Result<PoolView, WriteError> {
        let key = (c.offset.set, c.offset.slot);
        if self.spec_needs_texture(pool, key) {
            Ok(
                PoolView {
                    textures: pool.textures.insert(
                        key,
                        TextureImage { size: self.spec_extent(), pixels: self.spec_as_bytevec() },
                    ),
                    texture_views: pool.texture_views.insert(
                        key,
                        TextureView { shape: TextureShape::Cube },
                    ),
                    ..pool
                },
            )
        } else {
            Ok(
                PoolView {
                    textures: pool.textures.insert(
                        key,
                        TextureImage {
                            size: pool.textures[key].size,
                            pixels: self.spec_as_bytevec(),
                        },
                    ),
                    ..pool
                },
            )
        }
    }

    open spec fn spec_left(&self, c: Cursor, pool: PoolView) -> PoolView {
        pool
    }

    fn try_write_at_cursor(&self, c: Cursor, binding_resources: &mut BindingResources) -> (r: Result<
        (),
        WriteError,
    >) {
        self.write_at_cursor(c, binding_resources);
        Ok(())
    }

    fn write_at_cursor(&self, c: Cursor, binding_resources: &mut BindingResources) {
        let set_index = c.offset().set();
        let slot_index = c.offset().slot();
        let ghost before = binding_resources@;
        let size = match take(&mut binding_resources.textures, set_index, slot_index) {
            Some(current) => {
                if current.size != self.extent() {
                    None
                } else {
                    Some(current.size)
                }
            },
            None => None,
        };
        match size {
            Some(size) => {
                let texture = Texture { size, pixels: self.as_bytevec() };
                put(&mut binding_resources.textures, set_index, slot_index, texture);
            },
            None => {
                let texture = Texture { size: self.descriptor().size, pixels: self.as_bytevec() };
                let view = TextureView { shape: self.view_descriptor().dimension };
                put(&mut binding_resources.textures, set_index, slot_index, texture);
                put(&mut binding_resources.texture_views, set_index, slot_index, view);
            },
        }
        assert(binding_resources@.textures =~= self.spec_written(c, before).unwrap().textures);
    }
}

/// A sampler with nothing to configure.
pub struct DummySampler {
}

impl Writable for DummySampler {
    /// The pool has a sampler at the cursor's set and slot: the one that was
    /// there, or a new one.
    open spec fn spec_written(&self, c: Cursor, pool: PoolView) -> Result<PoolView, WriteError> {
        let key = (c.offset.set, c.offset.slot);
        if pool.samplers.contains_key(key) {
            Ok(pool)
        } else {
            Ok(PoolView { samplers: pool.samplers.insert(key, Sampler {  }), ..pool })
        }
    }

    open spec fn spec_left(&self, c: Cursor, pool: PoolView) -> PoolView {
        pool
    }

    fn try_write_at_cursor(&self, c: Cursor, binding_resources: &mut BindingResources) -> (r: Result<
        (),
        WriteError,
    >) {
        self.write_at_cursor(c, binding_resources);
        Ok(())
    }

    fn write_at_cursor(&self, c: Cursor, binding_resources: &mut BindingResources) {
        let set_index = c.offset().set();
        let slot_index = c.offset().slot();
        if lookup(&binding_resources.samplers, set_index, slot_index).is_none() {
            put(&mut binding_resources.samplers, set_index, slot_index, Sampler {  });
        }
    }
}

} // verus!
