use wgpu_tidy::binding::base_layout_entries;
use wgpu_tidy::cursor::Cursor;
use wgpu_tidy::encode::{Float32, Matrix3, Vector3};
use wgpu_tidy::layout::{Field, LayoutNode, Shape, TextureShape};
use wgpu_tidy::offset::{Amounts, Offset};
use wgpu_tidy::pool::{
    buffers_from_layout, BindingResources, Buffer, BufferUsages, Extent3d, Sampler, TextureView,
};
use wgpu_tidy::store::{lookup, put, take};
use wgpu_tidy::texture::{
    DummySampler, RgbaImage, RgbaSkybox, TextureDescriptor, TextureDimension, TextureFormat,
    TextureUsages, TextureViewDescriptor,
};
use wgpu_tidy::writable::{
    read_buffer, resize_buffer, write_buffer, Composite, ConstantBuffer, Fields, NoFields,
    StructuredBuffer, Writable, WriteError,
};

fn amounts(uniform: usize, slot: usize, set: usize) -> Amounts {
    Amounts { uniform, slot, set }
}

fn node(uniform_size: usize, shape: Shape) -> LayoutNode {
    LayoutNode {
        name: String::new(),
        size: amounts(uniform_size, 0, 0),
        stride: amounts(uniform_size, 0, 0),
        shape,
    }
}

/// A sampler, texture or buffer resource: it takes up one slot.
fn bound(shape: Shape) -> LayoutNode {
    LayoutNode { name: String::new(), size: amounts(0, 1, 0), stride: amounts(0, 1, 0), shape }
}

fn field(name: &str, offset: Amounts, node: LayoutNode) -> Field {
    Field { name: name.to_string(), offset, node }
}

fn at(set: usize, slot: usize, uniform: usize) -> Offset {
    Offset { set, set_accumulator: set, slot, slot_accumulator: slot, uniform }
}

fn f(value: f32) -> Float32 {
    Float32::from_bits(value.to_bits())
}

fn v(x: f32, y: f32, z: f32) -> Vector3 {
    Vector3 { x: f(x), y: f(y), z: f(z) }
}

fn identity() -> Matrix3 {
    Matrix3 { x: v(1.0, 0.0, 0.0), y: v(0.0, 1.0, 0.0), z: v(0.0, 0.0, 1.0) }
}

type Hermite = Composite<Fields<Vector3, Fields<Vector3, NoFields>>>;

fn hermite_value(pos: Vector3, normal: Vector3) -> Hermite {
    Composite(Fields(pos, Fields(normal, NoFields)))
}

fn points(count: usize) -> StructuredBuffer<Hermite> {
    StructuredBuffer(
        (0..count)
            .map(|i| hermite_value(v(i as f32, 0.5, -1.0), v(0.0, i as f32, 2.0)))
            .collect(),
    )
}

type Surface = ConstantBuffer<
    Composite<Fields<Float32, Fields<Matrix3, Fields<StructuredBuffer<Hermite>, NoFields>>>>,
>;

fn surface_value(support: f32, frame: Matrix3, count: usize) -> Surface {
    ConstantBuffer(Composite(Fields(f(support), Fields(frame, Fields(points(count), NoFields)))))
}

fn hermite() -> LayoutNode {
    LayoutNode {
        name: "Hermite".to_string(),
        size: amounts(28, 0, 0),
        stride: amounts(32, 0, 0),
        shape: Shape::Struct {
            fields: vec![
                field("pos", amounts(0, 0, 0), node(12, Shape::Vector)),
                field("normal", amounts(16, 0, 0), node(12, Shape::Vector)),
            ],
        },
    }
}

fn surface_block() -> LayoutNode {
    let body = node(
        64,
        Shape::Struct {
            fields: vec![
                field("support", amounts(0, 0, 0), node(4, Shape::Scalar)),
                field("frame", amounts(16, 0, 0), node(48, Shape::Matrix)),
                field(
                    "point_data",
                    amounts(0, 1, 0),
                    bound(Shape::RawBuffer { element: Box::new(hermite()) }),
                ),
            ],
        },
    );
    node(
        0,
        Shape::ParameterBlock {
            footprint: amounts(0, 1, 1),
            content: Box::new(field("globals", amounts(0, 0, 0), body)),
        },
    )
}

fn pool_for(root: &LayoutNode) -> BindingResources {
    BindingResources::with_buffers(buffers_from_layout(&base_layout_entries(root)))
}

fn pool_with_buffer(set: usize, slot: usize, size: usize) -> BindingResources {
    let mut pool = BindingResources::new();
    let usage = BufferUsages { copy_src: true, copy_dst: true, uniform: true, storage: false };
    put(&mut pool.buffers, set, slot, Buffer { usage, contents: vec![0xee; size] });
    pool
}

fn bytes_of(pool: &BindingResources, set: usize, slot: usize) -> Vec<u8> {
    lookup(&pool.buffers, set, slot).unwrap().contents.clone()
}

fn cursor_at<'a>(layout: &'a LayoutNode, offset: Offset) -> Cursor<'a> {
    Cursor { type_layout: layout, offset }
}

#[test]
fn a_written_float_reads_back() {
    let leaf = node(4, Shape::Scalar);
    let mut pool = pool_with_buffer(2, 3, 16);
    f(1.5).write_at_cursor(cursor_at(&leaf, at(2, 3, 8)), &mut pool);
    assert_eq!(read_buffer(&pool, at(2, 3, 8), 4).unwrap(), 1.5f32.to_le_bytes().to_vec());
    // The bytes around it are as they were.
    let mut expected = vec![0xeeu8; 16];
    expected[8..12].copy_from_slice(&1.5f32.to_le_bytes());
    assert_eq!(bytes_of(&pool, 2, 3), expected);
}

#[test]
fn a_written_signed_word_reads_back() {
    let leaf = node(4, Shape::Scalar);
    let mut pool = pool_with_buffer(0, 0, 8);
    (-9i32).write_at_cursor(cursor_at(&leaf, at(0, 0, 4)), &mut pool);
    assert_eq!(read_buffer(&pool, at(0, 0, 4), 4).unwrap(), (-9i32).to_le_bytes().to_vec());
    9i32.write_at_cursor(cursor_at(&leaf, at(0, 0, 0)), &mut pool);
    assert_eq!(bytes_of(&pool, 0, 0), vec![9, 0, 0, 0, 0xf7, 0xff, 0xff, 0xff]);
}

#[test]
fn a_written_vector_reads_back() {
    let leaf = node(12, Shape::Vector);
    let mut pool = pool_with_buffer(0, 1, 32);
    let value = v(0.25, -4.0, 1e9);
    value.write_at_cursor(cursor_at(&leaf, at(0, 1, 16)), &mut pool);
    assert_eq!(read_buffer(&pool, at(0, 1, 16), 12).unwrap(), value.to_bytes());
}

#[test]
fn the_identity_matrix_reads_back_in_its_padded_rows() {
    let leaf = node(48, Shape::Matrix);
    let mut pool = pool_with_buffer(0, 0, 64);
    identity().write_at_cursor(cursor_at(&leaf, at(0, 0, 16)), &mut pool);
    let read = read_buffer(&pool, at(0, 0, 16), 48).unwrap();
    assert_eq!(read, identity().to_bytes());
    let one = 1.0f32.to_le_bytes();
    let mut expected = vec![0xeeu8; 64];
    expected[16..64].copy_from_slice(&[0u8; 48]);
    expected[16..20].copy_from_slice(&one);
    expected[36..40].copy_from_slice(&one);
    expected[56..60].copy_from_slice(&one);
    assert_eq!(bytes_of(&pool, 0, 0), expected);
}

#[test]
fn a_write_without_a_buffer_fails() {
    let leaf = node(4, Shape::Scalar);
    let mut pool = pool_with_buffer(0, 0, 16);
    assert_eq!(
        f(1.0).try_write_at_cursor(cursor_at(&leaf, at(0, 1, 0)), &mut pool),
        Err(WriteError::MissingBuffer)
    );
    assert_eq!(
        f(1.0).try_write_at_cursor(cursor_at(&leaf, at(1, 0, 0)), &mut pool),
        Err(WriteError::MissingBuffer)
    );
    assert_eq!(bytes_of(&pool, 0, 0), vec![0xee; 16]);
}

#[test]
fn a_write_past_the_end_of_the_buffer_fails() {
    let leaf = node(48, Shape::Matrix);
    let mut pool = pool_with_buffer(0, 0, 32);
    assert_eq!(
        identity().try_write_at_cursor(cursor_at(&leaf, at(0, 0, 0)), &mut pool),
        Err(WriteError::OutOfBounds)
    );
    assert_eq!(
        f(1.0).try_write_at_cursor(cursor_at(&leaf, at(0, 0, 29)), &mut pool),
        Err(WriteError::OutOfBounds)
    );
    assert!(f(1.0).try_write_at_cursor(cursor_at(&leaf, at(0, 0, 28)), &mut pool).is_ok());
    assert_eq!(write_buffer(&mut pool, at(0, 0, usize::MAX), &vec![1]), Err(WriteError::OutOfBounds));
}

#[test]
fn reading_needs_the_buffer_and_the_range() {
    let pool = pool_with_buffer(0, 0, 8);
    assert_eq!(read_buffer(&pool, at(0, 0, 0), 8).unwrap(), vec![0xee; 8]);
    assert_eq!(read_buffer(&pool, at(0, 0, 8), 0).unwrap(), Vec::<u8>::new());
    assert!(read_buffer(&pool, at(0, 0, 1), 8).is_none());
    assert!(read_buffer(&pool, at(0, 1, 0), 1).is_none());
}

#[test]
fn resizing_replaces_a_buffer_of_another_size() {
    let mut pool = pool_with_buffer(1, 1, 8);
    let usage = lookup(&pool.buffers, 1, 1).unwrap().usage;
    // The same size: the buffer and its bytes stay.
    resize_buffer(&mut pool, at(1, 1, 0), 8);
    assert_eq!(bytes_of(&pool, 1, 1), vec![0xee; 8]);
    // Another size: a zeroed buffer of the same usage.
    resize_buffer(&mut pool, at(1, 1, 0), 12).unwrap();
    assert_eq!(bytes_of(&pool, 1, 1), vec![0u8; 12]);
    assert_eq!(lookup(&pool.buffers, 1, 1).unwrap().usage, usage);
    resize_buffer(&mut pool, at(1, 1, 0), 0).unwrap();
    assert!(bytes_of(&pool, 1, 1).is_empty());
    assert_eq!(resize_buffer(&mut pool, at(1, 2, 0), 4), Err(WriteError::MissingBuffer));
}

#[test]
fn a_block_of_float_matrix_and_nine_then_three_pairs() {
    let root = surface_block();
    let mut pool = pool_for(&root);
    // As the layout asks: 64 bytes of uniform data, one element of storage.
    assert_eq!(bytes_of(&pool, 0, 0).len(), 64);
    assert_eq!(bytes_of(&pool, 0, 1).len(), 32);

    surface_value(1.0, identity(), 9).write_at_cursor(Cursor::fresh(&root), &mut pool);

    // The float at byte 0, the matrix from byte 16 on, rows 16 bytes apart.
    let one = 1.0f32.to_le_bytes();
    let mut uniform = vec![0u8; 64];
    uniform[0..4].copy_from_slice(&one);
    uniform[16..20].copy_from_slice(&one);
    uniform[36..40].copy_from_slice(&one);
    uniform[56..60].copy_from_slice(&one);
    assert_eq!(bytes_of(&pool, 0, 0), uniform);

    // The pairs in the second slot of the same set, in a buffer of nine
    // strides.
    let storage = bytes_of(&pool, 0, 1);
    assert_eq!(storage.len(), 9 * 32);
    for i in 0..9usize {
        let pos = v(i as f32, 0.5, -1.0).to_bytes();
        let normal = v(0.0, i as f32, 2.0).to_bytes();
        assert_eq!(&storage[32 * i..32 * i + 12], &pos[..]);
        assert_eq!(&storage[32 * i + 12..32 * i + 16], &[0u8; 4]);
        assert_eq!(&storage[32 * i + 16..32 * i + 28], &normal[..]);
        assert_eq!(&storage[32 * i + 28..32 * i + 32], &[0u8; 4]);
    }

    // Three pairs: the buffer gives way to one of three strides.
    surface_value(2.0, identity(), 3).write_at_cursor(Cursor::fresh(&root), &mut pool);
    let storage = bytes_of(&pool, 0, 1);
    assert_eq!(storage.len(), 3 * 32);
    assert_eq!(&storage[64..76], &v(2.0, 0.5, -1.0).to_bytes()[..]);
    assert_eq!(&bytes_of(&pool, 0, 0)[0..4], &2.0f32.to_le_bytes());
    assert_eq!(
        lookup(&pool.buffers, 0, 1).unwrap().usage,
        BufferUsages { copy_src: false, copy_dst: true, uniform: false, storage: true }
    );
}

#[test]
fn an_empty_collection_leaves_an_empty_buffer() {
    let root = surface_block();
    let mut pool = pool_for(&root);
    surface_value(0.0, identity(), 0).write_at_cursor(Cursor::fresh(&root), &mut pool);
    assert!(bytes_of(&pool, 0, 1).is_empty());
}

#[test]
fn a_collection_of_the_same_count_keeps_its_buffer_and_overwrites() {
    let buffer = bound(Shape::RawBuffer { element: Box::new(node(4, Shape::Scalar)) });
    let mut pool = pool_with_buffer(0, 0, 8);
    let c = cursor_at(&buffer, at(0, 0, 0));
    StructuredBuffer(vec![7i32, -1]).write_at_cursor(c, &mut pool);
    assert_eq!(bytes_of(&pool, 0, 0), vec![7, 0, 0, 0, 0xff, 0xff, 0xff, 0xff]);
    StructuredBuffer(vec![3i32]).write_at_cursor(c, &mut pool);
    assert_eq!(bytes_of(&pool, 0, 0), vec![3, 0, 0, 0]);
}

#[test]
fn a_collection_needs_a_node_with_elements_and_a_buffer() {
    let leaf = node(4, Shape::Scalar);
    let mut pool = pool_with_buffer(0, 0, 8);
    assert_eq!(
        StructuredBuffer(vec![1i32]).try_write_at_cursor(cursor_at(&leaf, at(0, 0, 0)), &mut pool),
        Err(WriteError::NoSuchPath)
    );
    let buffer = bound(Shape::RawBuffer { element: Box::new(node(4, Shape::Scalar)) });
    assert_eq!(
        StructuredBuffer(vec![1i32]).try_write_at_cursor(cursor_at(&buffer, at(0, 5, 0)), &mut pool),
        Err(WriteError::MissingBuffer)
    );
    // Four items do not fit an array of three.
    let array = node(
        12,
        Shape::Array {
            count: 3,
            element_stride: amounts(4, 0, 0),
            element: Box::new(node(4, Shape::Scalar)),
        },
    );
    assert_eq!(
        StructuredBuffer(vec![1i32, 2, 3, 4]).try_write_at_cursor(cursor_at(&array, at(0, 0, 0)), &mut pool),
        Err(WriteError::NoSuchPath)
    );
    // The buffer was resized for four, and three were written.
    assert_eq!(
        bytes_of(&pool, 0, 0),
        vec![1, 0, 0, 0, 2, 0, 0, 0, 3, 0, 0, 0, 0, 0, 0, 0]
    );
}

#[test]
fn a_collection_whose_size_leaves_the_machine_word_fails() {
    let element = LayoutNode {
        name: String::new(),
        size: amounts(4, 0, 0),
        stride: amounts(usize::MAX, 0, 0),
        shape: Shape::Scalar,
    };
    let buffer = bound(Shape::RawBuffer { element: Box::new(element) });
    let mut pool = pool_with_buffer(0, 0, 8);
    assert_eq!(
        StructuredBuffer(vec![1i32, 2]).try_write_at_cursor(cursor_at(&buffer, at(0, 0, 0)), &mut pool),
        Err(WriteError::SizeOverflow)
    );
}

#[test]
fn a_boxed_value_needs_a_container() {
    let leaf = node(4, Shape::Scalar);
    let mut pool = pool_with_buffer(0, 0, 8);
    assert_eq!(
        ConstantBuffer(f(1.0)).try_write_at_cursor(cursor_at(&leaf, at(0, 0, 0)), &mut pool),
        Err(WriteError::NoSuchPath)
    );
    let container = node(
        0,
        Shape::ConstantBuffer {
            footprint: amounts(0, 1, 0),
            content: Box::new(field("inner", amounts(4, 0, 0), node(4, Shape::Scalar))),
        },
    );
    ConstantBuffer(f(1.0)).write_at_cursor(cursor_at(&container, at(0, 0, 0)), &mut pool);
    assert_eq!(read_buffer(&pool, at(0, 0, 4), 4).unwrap(), 1.0f32.to_le_bytes().to_vec());
}

#[test]
fn a_composite_writes_each_part_at_its_field() {
    let layout = hermite();
    let mut pool = pool_with_buffer(0, 0, 32);
    let value = hermite_value(v(1.0, 2.0, 3.0), v(4.0, 5.0, 6.0));
    value.write_at_cursor(cursor_at(&layout, at(0, 0, 0)), &mut pool);
    assert_eq!(read_buffer(&pool, at(0, 0, 0), 12).unwrap(), v(1.0, 2.0, 3.0).to_bytes());
    assert_eq!(read_buffer(&pool, at(0, 0, 16), 12).unwrap(), v(4.0, 5.0, 6.0).to_bytes());
    assert_eq!(read_buffer(&pool, at(0, 0, 12), 4).unwrap(), vec![0xee; 4]);
    assert_eq!(read_buffer(&pool, at(0, 0, 28), 4).unwrap(), vec![0xee; 4]);
}

#[test]
fn a_composite_with_more_parts_than_fields_fails() {
    let layout = hermite();
    let mut pool = pool_with_buffer(0, 0, 64);
    let value = Composite(Fields(
        v(1.0, 2.0, 3.0),
        Fields(v(4.0, 5.0, 6.0), Fields(f(7.0), NoFields)),
    ));
    assert_eq!(
        value.try_write_at_cursor(cursor_at(&layout, at(0, 0, 0)), &mut pool),
        Err(WriteError::NoSuchPath)
    );
    // The parts before the failing one are written.
    assert_eq!(read_buffer(&pool, at(0, 0, 0), 12).unwrap(), v(1.0, 2.0, 3.0).to_bytes());
    assert_eq!(read_buffer(&pool, at(0, 0, 16), 12).unwrap(), v(4.0, 5.0, 6.0).to_bytes());
    // A composite with no parts writes nothing, anywhere.
    let leaf = node(4, Shape::Scalar);
    assert!(Composite(NoFields).try_write_at_cursor(cursor_at(&leaf, at(9, 9, 9)), &mut pool).is_ok());
    assert_eq!(bytes_of(&pool, 0, 0)[32..], vec![0xee; 32][..]);
}

fn face(width: u32, height: u32, fill: u8) -> RgbaImage {
    RgbaImage { width, height, data: vec![fill; 4 * (width * height) as usize] }
}

fn skybox(width: u32, height: u32, base: u8) -> RgbaSkybox {
    RgbaSkybox {
        px: face(width, height, base),
        nx: face(width, height, base + 1),
        py: face(width, height, base + 2),
        ny: face(width, height, base + 3),
        pz: face(width, height, base + 4),
        nz: face(width, height, base + 5),
    }
}

#[test]
fn a_skybox_describes_its_texture() {
    let sky = skybox(4, 2, 10);
    assert_eq!(sky.dimensions(), (4, 2));
    assert_eq!(sky.width(), 4);
    assert_eq!(sky.height(), 2);
    let extent = Extent3d { width: 4, height: 2, depth_or_array_layers: 6 };
    assert_eq!(sky.extent(), extent);
    assert_eq!(sky.texture_format(), TextureFormat::Rgba8UnormSrgb);
    assert_eq!(
        sky.descriptor(),
        TextureDescriptor {
            size: extent,
            mip_level_count: 1,
            sample_count: 1,
            dimension: TextureDimension::D2,
            format: TextureFormat::Rgba8UnormSrgb,
            usage: TextureUsages { copy_dst: true, texture_binding: true },
        }
    );
    assert_eq!(sky.view_descriptor(), TextureViewDescriptor { dimension: TextureShape::Cube });
    assert_eq!(sky.bytes_per_block(), 4);
    assert_eq!(sky.bytes_per_row(), Some(16));
    assert_eq!(skybox(u32::MAX / 4 + 1, 0, 0).bytes_per_row(), None);
}

#[test]
fn the_faces_of_a_skybox_follow_one_another() {
    let sky = skybox(1, 1, 10);
    let mut expected = Vec::new();
    for fill in 10u8..16 {
        expected.extend_from_slice(&[fill; 4]);
    }
    assert_eq!(sky.as_bytevec(), expected);
}

#[test]
fn a_texture_is_created_once_and_replaced_when_its_size_changes() {
    let layout = bound(Shape::Texture { shape: TextureShape::Cube, element: Box::new(node(16, Shape::Vector)) },
    );
    let c = cursor_at(&layout, at(1, 2, 0));
    let mut pool = BindingResources::new();

    let first = skybox(2, 2, 10);
    first.write_at_cursor(c, &mut pool);
    let texture = lookup(&pool.textures, 1, 2).unwrap();
    assert_eq!(texture.size, first.extent());
    assert_eq!(texture.pixels, first.as_bytevec());
    assert_eq!(*lookup(&pool.texture_views, 1, 2).unwrap(), TextureView { shape: TextureShape::Cube });

    // The same size: the texture and its view stay, the pixels are new.
    put(&mut pool.texture_views, 1, 2, TextureView { shape: TextureShape::D2Array });
    let again = skybox(2, 2, 50);
    again.write_at_cursor(c, &mut pool);
    assert_eq!(lookup(&pool.textures, 1, 2).unwrap().pixels, again.as_bytevec());
    assert_eq!(lookup(&pool.textures, 1, 2).unwrap().size, first.extent());
    assert_eq!(
        *lookup(&pool.texture_views, 1, 2).unwrap(),
        TextureView { shape: TextureShape::D2Array }
    );

    // Another size: texture and view are both new.
    let wider = skybox(4, 2, 90);
    wider.write_at_cursor(c, &mut pool);
    assert_eq!(lookup(&pool.textures, 1, 2).unwrap().size, wider.extent());
    assert_eq!(lookup(&pool.textures, 1, 2).unwrap().pixels, wider.as_bytevec());
    assert_eq!(*lookup(&pool.texture_views, 1, 2).unwrap(), TextureView { shape: TextureShape::Cube });
    assert!(lookup(&pool.textures, 1, 1).is_none());
    assert!(lookup(&pool.buffers, 1, 2).is_none());
}

#[test]
fn a_sampler_is_created_once() {
    let layout = bound(Shape::Sampler);
    let mut pool = BindingResources::new();
    DummySampler {}.write_at_cursor(cursor_at(&layout, at(0, 2, 0)), &mut pool);
    assert_eq!(*lookup(&pool.samplers, 0, 2).unwrap(), Sampler {});
    DummySampler {}.write_at_cursor(cursor_at(&layout, at(0, 2, 0)), &mut pool);
    assert_eq!(pool.samplers.len(), 1);
    assert_eq!(pool.samplers[&0].len(), 1);
    assert!(lookup(&pool.samplers, 0, 1).is_none());
}

#[test]
fn the_store_takes_out_what_was_put_in() {
    let mut pool = BindingResources::new();
    assert!(lookup(&pool.samplers, 3, 4).is_none());
    assert!(take(&mut pool.samplers, 3, 4).is_none());
    put(&mut pool.samplers, 3, 4, Sampler {});
    put(&mut pool.samplers, 3, 5, Sampler {});
    assert!(lookup(&pool.samplers, 3, 4).is_some());
    assert_eq!(take(&mut pool.samplers, 3, 4), Some(Sampler {}));
    assert!(lookup(&pool.samplers, 3, 4).is_none());
    assert!(lookup(&pool.samplers, 3, 5).is_some());
    assert!(take(&mut pool.samplers, 3, 4).is_none());
}

#[test]
fn a_texture_with_another_number_of_layers_is_replaced() {
    let layout = bound(Shape::Texture {
        shape: TextureShape::Cube,
        element: Box::new(node(16, Shape::Vector)),
    });
    let c = cursor_at(&layout, at(0, 0, 0));
    let mut pool = BindingResources::new();
    let sky = skybox(2, 2, 10);
    // A texture of the value's width and height, but of one layer.
    let flat = Extent3d { width: 2, height: 2, depth_or_array_layers: 1 };
    put(&mut pool.textures, 0, 0, wgpu_tidy::pool::Texture { size: flat, pixels: vec![1; 16] });
    put(&mut pool.texture_views, 0, 0, TextureView { shape: TextureShape::D2 });
    sky.write_at_cursor(c, &mut pool);
    assert_eq!(lookup(&pool.textures, 0, 0).unwrap().size, sky.extent());
    assert_eq!(lookup(&pool.textures, 0, 0).unwrap().pixels, sky.as_bytevec());
    assert_eq!(*lookup(&pool.texture_views, 0, 0).unwrap(), TextureView { shape: TextureShape::Cube });
}

#[test]
fn the_total_writes_do_what_the_others_do() {
    let root = surface_block();
    let mut first = pool_for(&root);
    let mut second = pool_for(&root);
    surface_value(1.0, identity(), 4).write_at_cursor(Cursor::fresh(&root), &mut first);
    assert_eq!(
        surface_value(1.0, identity(), 4).try_write_at_cursor(Cursor::fresh(&root), &mut second),
        Ok(())
    );
    assert_eq!(bytes_of(&first, 0, 0), bytes_of(&second, 0, 0));
    assert_eq!(bytes_of(&first, 0, 1), bytes_of(&second, 0, 1));
    assert_eq!(bytes_of(&first, 0, 1).len(), 4 * 32);
}
