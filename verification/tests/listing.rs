use wgpu_tidy::cursor::Cursor;
use wgpu_tidy::layout::{Field, Kind, LayoutNode, Shape};
use wgpu_tidy::offset::{Amounts, Offset};
use wgpu_tidy::walk::{try_walk_him_down, walk_him_down};

fn amounts(uniform: usize, slot: usize, set: usize) -> Amounts {
    Amounts { uniform, slot, set }
}

fn node(uniform_size: usize, shape: Shape) -> LayoutNode {
    LayoutNode {
        name: String::new(),
        size: amounts(uniform_size, 0, 0),
        stride: amounts(uniform_size, 0, 0),
        shape,
    }
}

/// A sampler, texture or buffer resource: it takes up one slot.
fn bound(shape: Shape) -> LayoutNode {
    LayoutNode { name: String::new(), size: amounts(0, 1, 0), stride: amounts(0, 1, 0), shape }
}

fn named(name: &str, uniform_size: usize, shape: Shape) -> LayoutNode {
    LayoutNode { name: name.to_string(), ..node(uniform_size, shape) }
}

fn field(name: &str, offset: Amounts, node: LayoutNode) -> Field {
    Field { name: name.to_string(), offset, node }
}

fn at(set: usize, set_accumulator: usize, slot: usize, slot_accumulator: usize, uniform: usize) -> Offset {
    Offset { set, set_accumulator, slot, slot_accumulator, uniform }
}

fn globals() -> Field {
    let camera = node(
        0,
        Shape::ConstantBuffer {
            footprint: amounts(0, 1, 0),
            content: Box::new(field(
                "camera_data",
                amounts(0, 0, 0),
                named("Camera", 64, Shape::Struct {
                    fields: vec![
                        field("width", amounts(0, 0, 0), node(4, Shape::Scalar)),
                        field("frame", amounts(16, 0, 0), node(48, Shape::Matrix)),
                    ],
                }),
            )),
        },
    );
    field(
        "globals",
        amounts(0, 0, 0),
        named("Globals", 0, Shape::Struct {
            fields: vec![
                field("tint", amounts(8, 0, 0), node(12, Shape::Vector)),
                field("camera", amounts(0, 1, 0), camera),
                field("smooth", amounts(0, 2, 0), bound(Shape::Sampler)),
            ],
        }),
    )
}

#[test]
fn the_listing_names_parents_before_children() {
    let root = globals();
    let lines = walk_him_down(&root, Cursor::fresh(&root.node));
    let got: Vec<(&str, Kind, Offset)> =
        lines.iter().map(|l| (l.name.as_str(), l.kind, l.offset)).collect();
    let types: Vec<&str> = lines.iter().map(|l| l.type_label.as_str()).collect();
    assert_eq!(types, vec!["Globals", "", "", "Camera", "", "", ""]);
    assert_eq!(
        got,
        vec![
            ("globals", Kind::Struct, at(0, 0, 0, 0, 0)),
            ("tint", Kind::Vector, at(0, 0, 0, 0, 8)),
            ("camera", Kind::ConstantBuffer, at(0, 0, 1, 1, 0)),
            ("camera_data", Kind::Struct, at(0, 0, 1, 1, 0)),
            ("width", Kind::Scalar, at(0, 0, 1, 1, 0)),
            ("frame", Kind::Matrix, at(0, 0, 1, 1, 16)),
            ("smooth", Kind::Sampler, at(0, 0, 2, 2, 0)),
        ]
    );
}

#[test]
fn a_leaf_lists_itself() {
    let leaf = field("x", amounts(0, 0, 0), node(4, Shape::Scalar));
    let lines = walk_him_down(&leaf, Cursor::fresh(&leaf.node));
    assert_eq!(lines.len(), 1);
    assert_eq!(lines[0].name, "x");
    assert_eq!(lines[0].kind, Kind::Scalar);
}

#[test]
fn no_listing_where_the_cursor_lacks_a_field() {
    let root = globals();
    // A cursor on another node: it has no fields to follow the variable's.
    let other = node(4, Shape::Scalar);
    assert!(try_walk_him_down(&root, Cursor::fresh(&other)).is_none());
    // A coordinate from which the second field cannot be reached.
    let far = Cursor { type_layout: &root.node, offset: at(0, 0, 0, usize::MAX, 0) };
    assert!(try_walk_him_down(&root, far).is_none());
}

#[test]
fn a_container_is_listed_alone_where_the_cursor_has_no_child() {
    let root = globals();
    let camera = match &root.node.shape {
        Shape::Struct { fields } => &fields[1],
        _ => unreachable!(),
    };
    let other = node(4, Shape::Scalar);
    let lines = walk_him_down(camera, Cursor::fresh(&other));
    assert_eq!(try_walk_him_down(camera, Cursor::fresh(&other)).unwrap().len(), 1);
    assert_eq!(lines.len(), 1);
    assert_eq!(lines[0].name, "camera");
}
