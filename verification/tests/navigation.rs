use wgpu_tidy::cursor::{Cursor, Step};
use wgpu_tidy::layout::{Field, Kind, LayoutNode, Shape, TextureShape};
use wgpu_tidy::offset::{Amounts, Offset};

fn amounts(uniform: usize, slot: usize, set: usize) -> Amounts {
    Amounts { uniform, slot, set }
}

fn node(uniform_size: usize, shape: Shape) -> LayoutNode {
    LayoutNode {
        name: String::new(),
        size: amounts(uniform_size, 0, 0),
        stride: amounts(uniform_size, 0, 0),
        shape,
    }
}

/// A sampler, texture or buffer resource: it takes up one slot.
fn bound(shape: Shape) -> LayoutNode {
    LayoutNode { name: String::new(), size: amounts(0, 1, 0), stride: amounts(0, 1, 0), shape }
}

fn field(name: &str, offset: Amounts, node: LayoutNode) -> Field {
    Field { name: name.to_string(), offset, node }
}

fn at(set: usize, set_accumulator: usize, slot: usize, slot_accumulator: usize, uniform: usize) -> Offset {
    Offset { set, set_accumulator, slot, slot_accumulator, uniform }
}

fn hermite() -> LayoutNode {
    LayoutNode {
        name: "Hermite".to_string(),
        size: amounts(28, 0, 0),
        stride: amounts(32, 0, 0),
        shape: Shape::Struct {
            fields: vec![
                field("pos", amounts(0, 0, 0), node(12, Shape::Vector)),
                field("normal", amounts(16, 0, 0), node(12, Shape::Vector)),
            ],
        },
    }
}

/// A parameter block with a float, a 3 by 3 matrix and a buffer of pairs of
/// vectors.
fn surface_block() -> LayoutNode {
    let body = node(
        64,
        Shape::Struct {
            fields: vec![
                field("support", amounts(0, 0, 0), node(4, Shape::Scalar)),
                field("frame", amounts(16, 0, 0), node(48, Shape::Matrix)),
                field(
                    "point_data",
                    amounts(0, 1, 0),
                    bound(Shape::RawBuffer { element: Box::new(hermite()) }),
                ),
            ],
        },
    );
    node(
        0,
        Shape::ParameterBlock {
            footprint: amounts(0, 1, 1),
            content: Box::new(field("globals", amounts(0, 0, 0), body)),
        },
    )
}

fn three_floats() -> LayoutNode {
    node(
        12,
        Shape::Array {
            count: 3,
            element_stride: amounts(4, 0, 0),
            element: Box::new(node(4, Shape::Scalar)),
        },
    )
}

#[test]
fn a_fresh_cursor_is_at_the_origin() {
    let root = surface_block();
    let c = Cursor::fresh(&root);
    assert_eq!(c.offset(), Offset::origin());
    assert_eq!(c.type_layout().kind(), Kind::ParameterBlock);
}

#[test]
fn float_matrix_and_buffer_of_a_parameter_block() {
    let root = surface_block();
    let body = Cursor::fresh(&root).navigate_child().unwrap();
    assert_eq!(body.offset(), at(0, 0, 0, 0, 0));

    let support = body.navigate_field(0).unwrap();
    assert_eq!(support.type_layout().kind(), Kind::Scalar);
    assert_eq!(support.offset(), at(0, 0, 0, 0, 0));

    let frame = body.navigate_field(1).unwrap();
    assert_eq!(frame.type_layout().kind(), Kind::Matrix);
    assert_eq!(frame.offset(), at(0, 0, 0, 0, 16));

    // The buffer has the second slot of the same set, and its bytes start
    // over.
    let points = body.navigate_field(2).unwrap();
    assert_eq!(points.type_layout().kind(), Kind::RawBuffer);
    assert_eq!(points.offset(), at(0, 0, 1, 1, 0));
}

#[test]
fn elements_of_a_buffer_move_by_the_element_stride() {
    let root = surface_block();
    let points = Cursor::fresh(&root).navigate_child().unwrap().navigate_field(2).unwrap();
    let third = points.navigate_index(2).unwrap();
    assert_eq!(third.offset(), at(0, 0, 1, 1, 64));
    let normal = third.navigate_field(1).unwrap();
    assert_eq!(normal.offset(), at(0, 0, 1, 1, 80));
    // A buffer has no fixed length to check an index against.
    assert_eq!(points.navigate_index(1000).unwrap().offset().uniform(), 32000);
}

#[test]
fn index_five_of_a_three_element_array_is_no_path() {
    let array = three_floats();
    let c = Cursor::fresh(&array);
    assert!(c.navigate_index(5).is_none());
    assert!(c.navigate_index(3).is_none());
    assert_eq!(c.navigate_index(2).unwrap().offset(), at(0, 0, 0, 0, 8));
    assert_eq!(c.navigate_index(0).unwrap().offset(), at(0, 0, 0, 0, 0));
}

#[test]
fn an_array_moves_in_all_three_categories() {
    let array = node(
        0,
        Shape::Array {
            count: 4,
            element_stride: amounts(0, 2, 0),
            element: Box::new(bound(Shape::Texture { shape: TextureShape::D2, element: Box::new(node(16, Shape::Vector)) },
            )),
        },
    );
    let c = Cursor::fresh(&array);
    assert_eq!(c.navigate_index(0).unwrap().offset(), at(0, 0, 0, 0, 0));
    assert_eq!(c.navigate_index(3).unwrap().offset(), at(0, 0, 6, 6, 0));

    let blocks = node(
        0,
        Shape::Array {
            count: 2,
            element_stride: amounts(0, 0, 1),
            element: Box::new(surface_block()),
        },
    );
    let c = Cursor::fresh(&blocks);
    assert_eq!(c.navigate_index(0).unwrap().offset(), at(0, 0, 0, 0, 0));
    assert_eq!(c.navigate_index(1).unwrap().offset(), at(1, 1, 0, 0, 0));
}

#[test]
fn field_navigation_needs_a_struct_and_an_index_in_range() {
    let root = surface_block();
    let c = Cursor::fresh(&root);
    // A parameter block has an element, not fields.
    assert!(c.navigate_field(0).is_none());
    let body = c.navigate_child().unwrap();
    assert!(body.navigate_field(3).is_none());
    assert!(body.navigate_field(u32::MAX).is_none());
    let leaf = body.navigate_field(0).unwrap();
    assert!(leaf.navigate_field(0).is_none());
}

#[test]
fn child_navigation_needs_a_container() {
    let root = surface_block();
    let body = Cursor::fresh(&root).navigate_child().unwrap();
    assert!(body.navigate_child().is_none());
    assert!(body.navigate_field(0).unwrap().navigate_child().is_none());
    assert!(body.navigate_field(2).unwrap().navigate_child().is_none());
    let array = three_floats();
    assert!(Cursor::fresh(&array).navigate_child().is_none());
}

#[test]
fn index_navigation_needs_an_array_or_a_resource() {
    let root = surface_block();
    let c = Cursor::fresh(&root);
    assert!(c.navigate_index(0).is_none());
    let body = c.navigate_child().unwrap();
    assert!(body.navigate_index(0).is_none());
    assert!(body.navigate_field(0).unwrap().navigate_index(0).is_none());
    let sampler = bound(Shape::Sampler);
    assert!(Cursor::fresh(&sampler).navigate_index(0).is_none());
}

#[test]
fn every_container_kind_has_a_child() {
    let inner = || Box::new(field("inner", amounts(0, 0, 0), node(4, Shape::Scalar)));
    let footprint = amounts(0, 1, 0);
    let shapes = vec![
        Shape::ConstantBuffer { footprint, content: inner() },
        Shape::ParameterBlock { footprint, content: inner() },
        Shape::TextureBuffer { footprint, content: inner() },
        Shape::ShaderStorageBuffer { footprint, content: inner() },
    ];
    for shape in shapes {
        let container = node(0, shape);
        let child = Cursor::fresh(&container).navigate_child().unwrap();
        assert_eq!(child.type_layout().kind(), Kind::Scalar);
        assert_eq!(child.offset(), Offset::origin());
    }
}

#[test]
fn a_second_block_opens_the_next_set() {
    let root = node(
        0,
        Shape::Struct {
            fields: vec![
                field("first", amounts(0, 0, 0), surface_block()),
                field("second", amounts(0, 0, 1), surface_block()),
            ],
        },
    );
    let c = Cursor::fresh(&root);
    let first = c.navigate_field(0).unwrap();
    assert_eq!(first.offset(), at(0, 0, 0, 0, 0));
    let second = c.navigate_field(1).unwrap();
    assert_eq!(second.offset(), at(1, 1, 0, 0, 0));
    let points = second.navigate_child().unwrap().navigate_field(2).unwrap();
    assert_eq!(points.offset(), at(1, 1, 1, 1, 0));
}

#[test]
fn a_container_without_a_footprint_opens_nothing() {
    let plain = node(
        0,
        Shape::ConstantBuffer {
            footprint: amounts(0, 0, 0),
            content: Box::new(field("inner", amounts(8, 0, 0), node(4, Shape::Scalar))),
        },
    );
    let root = node(0, Shape::Struct { fields: vec![field("plain", amounts(16, 3, 2), plain)] });
    let entered = Cursor::fresh(&root).navigate_field(0).unwrap();
    assert_eq!(entered.offset(), at(0, 2, 0, 3, 16));
    assert_eq!(entered.navigate_child().unwrap().offset(), at(0, 2, 0, 3, 24));
}

#[test]
fn walking_a_path_is_navigating_step_by_step() {
    let root = surface_block();
    let path = vec![Step::Child, Step::Field(2), Step::Index(4), Step::Field(1)];
    let walked = Cursor::fresh(&root).walk(&path).unwrap();
    let stepped = Cursor::fresh(&root)
        .navigate_child()
        .unwrap()
        .navigate_field(2)
        .unwrap()
        .navigate_index(4)
        .unwrap()
        .navigate_field(1)
        .unwrap();
    assert_eq!(walked.offset(), stepped.offset());
    assert_eq!(walked.offset(), at(0, 0, 1, 1, 144));
    assert_eq!(Cursor::fresh(&root).walk(&vec![]).unwrap().offset(), Offset::origin());
}

#[test]
fn walking_in_two_stages_ends_at_the_same_place() {
    let root = surface_block();
    let whole = vec![Step::Child, Step::Field(2), Step::Index(7)];
    let reached = Cursor::fresh(&root).walk(&whole).unwrap();
    let halfway = Cursor::fresh(&root).walk(&vec![Step::Child, Step::Field(2)]).unwrap();
    let resumed = halfway.walk(&vec![Step::Index(7)]).unwrap();
    assert_eq!(reached.offset(), resumed.offset());
    // Asking again changes nothing.
    assert_eq!(Cursor::fresh(&root).walk(&whole).unwrap().offset(), reached.offset());
    assert_eq!(halfway.navigate(Step::Index(7)).unwrap().offset(), reached.offset());
}

#[test]
fn a_path_with_a_wrong_step_leads_nowhere() {
    let root = surface_block();
    let c = Cursor::fresh(&root);
    assert!(c.walk(&vec![Step::Field(0)]).is_none());
    assert!(c.walk(&vec![Step::Child, Step::Field(9), Step::Index(0)]).is_none());
    assert!(c.walk(&vec![Step::Child, Step::Child]).is_none());
}

#[test]
fn reachable_offsets_keep_their_accumulators_on_top() {
    let root = node(
        0,
        Shape::Struct {
            fields: vec![
                field("first", amounts(0, 0, 0), surface_block()),
                field("second", amounts(0, 0, 1), surface_block()),
            ],
        },
    );
    let paths = vec![
        vec![],
        vec![Step::Field(0)],
        vec![Step::Field(1), Step::Child],
        vec![Step::Field(1), Step::Child, Step::Field(1)],
        vec![Step::Field(1), Step::Child, Step::Field(2), Step::Index(3), Step::Field(0)],
    ];
    for path in paths {
        let o = Cursor::fresh(&root).walk(&path).unwrap().offset();
        assert!(o.set_accumulator() >= o.set());
        assert!(o.slot_accumulator() >= o.slot());
    }
}

#[test]
fn an_index_whose_offset_leaves_the_machine_word_is_no_path() {
    let huge = node(
        0,
        Shape::Array {
            count: 8,
            element_stride: amounts(usize::MAX / 2, 0, 0),
            element: Box::new(node(4, Shape::Scalar)),
        },
    );
    let c = Cursor::fresh(&huge);
    assert!(c.navigate_index(2).is_some());
    assert!(c.navigate_index(3).is_none());
}

#[test]
fn kinds_and_what_they_open() {
    let inner = || Box::new(field("inner", amounts(0, 0, 0), node(4, Shape::Scalar)));
    let sampler = bound(Shape::Sampler);
    assert!(sampler.opens_slot());
    assert!(!sampler.opens_set());
    assert!(!node(4, Shape::Scalar).opens_slot());
    let block = node(0, Shape::ParameterBlock { footprint: amounts(0, 0, 1), content: inner() });
    assert!(block.opens_set());
    assert!(!block.opens_slot());
    let buffer = node(0, Shape::ConstantBuffer { footprint: amounts(0, 1, 0), content: inner() });
    assert!(!buffer.opens_set());
    assert!(buffer.opens_slot());
    assert!(Kind::TextureBuffer.is_container());
    assert!(!Kind::Array.is_container());
    assert!(Kind::MutableRawBuffer.is_resource());
    assert!(!Kind::Sampler.is_resource());
    assert_eq!(block.footprint(), amounts(0, 0, 1));
    assert_eq!(sampler.footprint(), Amounts::zero());
    assert_eq!(block.field_count(), 0);
    assert!(block.container_element().is_some());
    assert!(block.indexed_element().is_none());
    assert!(three_floats().indexed_element().is_some());
    assert!(three_floats().field_by_index(0).is_none());
}

#[test]
fn a_resource_that_takes_up_no_slot_inherits_the_slot() {
    // Three samplers: the second reports no slot of its own.
    let root = node(
        0,
        Shape::Struct {
            fields: vec![
                field("first", amounts(0, 2, 0), bound(Shape::Sampler)),
                field("second", amounts(0, 3, 0), node(0, Shape::Sampler)),
                field("third", amounts(0, 4, 0), bound(Shape::Sampler)),
            ],
        },
    );
    let c = Cursor {
        type_layout: &root,
        offset: Offset { set: 0, set_accumulator: 0, slot: 1, slot_accumulator: 1, uniform: 8 },
    };
    let first = c.navigate_field(0).unwrap();
    assert_eq!(first.offset(), at(0, 0, 3, 3, 0));
    // The slot is the parent's; the accumulator still moves on.
    let second = c.navigate_field(1).unwrap();
    assert_eq!(second.offset(), at(0, 0, 1, 4, 8));
    let third = c.navigate_field(2).unwrap();
    assert_eq!(third.offset(), at(0, 0, 5, 5, 0));
    assert!(!node(0, Shape::Sampler).opens_slot());
    assert!(node(0, Shape::Sampler).is_bound());
    assert!(!node(4, Shape::Scalar).is_bound());
}

#[test]
fn a_texture_or_buffer_that_takes_up_no_slot_inherits_the_slot() {
    let texel = || Box::new(node(16, Shape::Vector));
    let shapes = vec![
        Shape::Texture { shape: TextureShape::D2, element: texel() },
        Shape::RawBuffer { element: texel() },
        Shape::MutableRawBuffer { element: texel() },
    ];
    for shape in shapes {
        let root = node(0, Shape::Struct { fields: vec![field("r", amounts(4, 3, 0), node(0, shape))] });
        let entered = Cursor::fresh(&root).navigate_field(0).unwrap();
        assert_eq!(entered.offset(), at(0, 0, 0, 3, 4));
    }
}
