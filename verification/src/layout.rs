//! The reflected layout tree, as plain data.

use crate::offset::Amounts;
use vstd::prelude::*;

verus! {

/// What a node of the layout tree is.
#[derive(Clone, Copy, Debug, PartialEq, Eq, Structural)]
pub enum Kind {
    Scalar,
    Vector,
    Matrix,
    Array,
    Struct,
    Sampler,
    Texture,
    RawBuffer,
    MutableRawBuffer,
    ConstantBuffer,
    ParameterBlock,
    TextureBuffer,
    ShaderStorageBuffer,
}

/// The dimensionality of a texture resource.
#[derive(Clone, Copy, Debug, PartialEq, Eq, Structural)]
pub enum TextureShape {
    D1,
    D2,
    D3,
    Cube,
    CubeArray,
    D2Array,
}

/// A child of a node together with where it sits inside its parent.
pub struct Field {
    pub name: String,
    pub offset: Amounts,
    pub node: LayoutNode,
}

/// The part of a node that depends on its kind.
pub enum Shape {
    Scalar,
    Vector,
    Matrix,
    /// `count` elements, each `element_stride` after the one before.
    Array { count: usize, element_stride: Amounts, element: Box<LayoutNode> },
    Struct { fields: Vec<Field> },
    Sampler,
    Texture { shape: TextureShape, element: Box<LayoutNode> },
    RawBuffer { element: Box<LayoutNode> },
    MutableRawBuffer { element: Box<LayoutNode> },
    /// The four container kinds. `footprint` is the size of the container
    /// itself, apart from what it holds.
    ConstantBuffer { footprint: Amounts, content: Box<Field> },
    ParameterBlock { footprint: Amounts, content: Box<Field> },
    TextureBuffer { footprint: Amounts, content: Box<Field> },
    ShaderStorageBuffer { footprint: Amounts, content: Box<Field> },
}

/// A node of the layout tree. `name` is the name of the node's type.
pub struct LayoutNode {
    pub name: String,
    pub size: Amounts,
    pub stride: Amounts,
    pub shape: Shape,
}

impl Shape {
    pub open spec fn spec_kind(self) -> Kind {
        match self {
            Shape::Scalar => Kind::Scalar,
            Shape::Vector => Kind::Vector,
            Shape::Matrix => Kind::Matrix,
            Shape::Array { .. } => Kind::Array,
            Shape::Struct { .. } => Kind::Struct,
            Shape::Sampler => Kind::Sampler,
            Shape::Texture { .. } => Kind::Texture,
            Shape::RawBuffer { .. } => Kind::RawBuffer,
            Shape::MutableRawBuffer { .. } => Kind::MutableRawBuffer,
            Shape::ConstantBuffer { .. } => Kind::ConstantBuffer,
            Shape::ParameterBlock { .. } => Kind::ParameterBlock,
            Shape::TextureBuffer { .. } => Kind::TextureBuffer,
            Shape::ShaderStorageBuffer { .. } => Kind::ShaderStorageBuffer,
        }
    }
}

impl Kind {
    /// The four kinds that hold one element in a buffer or block of its own.
    pub open spec fn spec_is_container(self) -> bool {
        self == Kind::ConstantBuffer || self == Kind::ParameterBlock || self == Kind::TextureBuffer
            || self == Kind::ShaderStorageBuffer
    }

    /// The kinds that are bound as one resource and addressed by element.
    pub open spec fn spec_is_resource(self) -> bool {
        self == Kind::Texture || self == Kind::RawBuffer || self == Kind::MutableRawBuffer
    }

    #[verifier::when_used_as_spec(spec_is_container)]
    pub fn is_container(self) -> (r: bool)
        ensures
            r == self.spec_is_container(),
    {
        match self {
            Kind::ConstantBuffer
            | Kind::ParameterBlock
            | Kind::TextureBuffer
            | Kind::ShaderStorageBuffer => true,
            _ => false,
        }
    }

    #[verifier::when_used_as_spec(spec_is_resource)]
    pub fn is_resource(self) -> (r: bool)
        ensures
            r == self.spec_is_resource(),
    {
        match self {
            Kind::Texture | Kind::RawBuffer | Kind::MutableRawBuffer => true,
            _ => false,
        }
    }
}

impl LayoutNode {
    pub open spec fn spec_kind(&self) -> Kind {
        self.shape.spec_kind()
    }

    /// The named children of a struct; no other kind has any.
    pub open spec fn spec_fields(self) -> Seq<Field> {
        match self.shape {
            Shape::Struct { fields } => fields@,
            _ => Seq::empty(),
        }
    }

    /// The element of a container with its local offset, if this is one.
    pub open spec fn spec_container_element(self) -> Option<Field> {
        match self.shape {
            Shape::ConstantBuffer { content, .. } => Some(*content),
            Shape::ParameterBlock { content, .. } => Some(*content),
            Shape::TextureBuffer { content, .. } => Some(*content),
            Shape::ShaderStorageBuffer { content, .. } => Some(*content),
            _ => None,
        }
    }

    /// The size of a container apart from its element; zero for other kinds.
    pub open spec fn spec_footprint(self) -> Amounts {
        match self.shape {
            Shape::ConstantBuffer { footprint, .. } => footprint,
            Shape::ParameterBlock { footprint, .. } => footprint,
            Shape::TextureBuffer { footprint, .. } => footprint,
            Shape::ShaderStorageBuffer { footprint, .. } => footprint,
            _ => (Amounts { uniform: 0, slot: 0, set: 0 }),
        }
    }

    /// The element type of an array or a resource, if this is one.
    pub open spec fn spec_indexed_element(self) -> Option<LayoutNode> {
        match self.shape {
            Shape::Array { element, .. } => Some(*element),
            Shape::Texture { element, .. } => Some(*element),
            Shape::RawBuffer { element } => Some(*element),
            Shape::MutableRawBuffer { element } => Some(*element),
            _ => None,
        }
    }

    /// Whether entering this node starts a descriptor set: a container whose
    /// own footprint takes up set space.
    pub open spec fn spec_opens_set(&self) -> bool {
        self.spec_kind().spec_is_container() && self.spec_footprint().set > 0
    }

    /// Whether this node is bound as one resource: a sampler, a texture or a
    /// buffer resource.
    pub open spec fn spec_is_bound(&self) -> bool {
        self.spec_kind().spec_is_resource() || self.spec_kind() == Kind::Sampler
    }

    /// Whether entering this node starts a slot: a container whose own
    /// footprint takes up a slot, or a sampler, texture or buffer resource
    /// whose size takes up a slot.
    pub open spec fn spec_opens_slot(&self) -> bool {
        ||| self.spec_kind().spec_is_container() && self.spec_footprint().slot > 0
        ||| self.spec_is_bound() && self.size.slot > 0
    }

    #[verifier::when_used_as_spec(spec_kind)]
    pub fn kind(&self) -> (k: Kind)
        ensures
            k == self.spec_kind(),
    {
        match &self.shape {
            Shape::Scalar => Kind::Scalar,
            Shape::Vector => Kind::Vector,
            Shape::Matrix => Kind::Matrix,
            Shape::Array { .. } => Kind::Array,
            Shape::Struct { .. } => Kind::Struct,
            Shape::Sampler => Kind::Sampler,
            Shape::Texture { .. } => Kind::Texture,
            Shape::RawBuffer { .. } => Kind::RawBuffer,
            Shape::MutableRawBuffer { .. } => Kind::MutableRawBuffer,
            Shape::ConstantBuffer { .. } => Kind::ConstantBuffer,
            Shape::ParameterBlock { .. } => Kind::ParameterBlock,
            Shape::TextureBuffer { .. } => Kind::TextureBuffer,
            Shape::ShaderStorageBuffer { .. } => Kind::ShaderStorageBuffer,
        }
    }

    /// The number of named children.
    pub fn field_count(&self) -> (n: usize)
        ensures
            n == self.spec_fields().len(),
    {
        match &self.shape {
            Shape::Struct { fields } => fields.len(),
            _ => 0,
        }
    }

    /// The named child at `index`, if there is one.
    pub fn field_by_index(&self, index: usize) -> (f: Option<&Field>)
        ensures
            f is Some <==> index < self.spec_fields().len(),
            f is Some ==> *f.unwrap() == self.spec_fields()[index as int],
    {
        match &self.shape {
            Shape::Struct { fields } => {
                if index < fields.len() {
                    Some(&fields[index])
                } else {
                    None
                }
            },
            _ => None,
        }
    }

    /// The element of a container with its local offset.
    pub fn container_element(&self) -> (f: Option<&Field>)
        ensures
            f is Some <==> self.spec_container_element() is Some,
            f is Some ==> *f.unwrap() == self.spec_container_element().unwrap(),
    {
        match &self.shape {
            Shape::ConstantBuffer { content, .. } => Some(&**content),
            Shape::ParameterBlock { content, .. } => Some(&**content),
            Shape::TextureBuffer { content, .. } => Some(&**content),
            Shape::ShaderStorageBuffer { content, .. } => Some(&**content),
            _ => None,
        }
    }

    /// The size of a container apart from its element.
    pub fn footprint(&self) -> (a: Amounts)
        ensures
            a == self.spec_footprint(),
    {
        match &self.shape {
            Shape::ConstantBuffer { footprint, .. } => *footprint,
            Shape::ParameterBlock { footprint, .. } => *footprint,
            Shape::TextureBuffer { footprint, .. } => *footprint,
            Shape::ShaderStorageBuffer { footprint, .. } => *footprint,
            _ => Amounts::zero(),
        }
    }

    /// The element type of an array or a resource.
    pub fn indexed_element(&self) -> (e: Option<&LayoutNode>)
        ensures
            e is Some <==> self.spec_indexed_element() is Some,
            e is Some ==> *e.unwrap() == self.spec_indexed_element().unwrap(),
    {
        match &self.shape {
            Shape::Array { element, .. } => Some(&**element),
            Shape::Texture { element, .. } => Some(&**element),
            Shape::RawBuffer { element } => Some(&**element),
            Shape::MutableRawBuffer { element } => Some(&**element),
            _ => None,
        }
    }

    #[verifier::when_used_as_spec(spec_opens_set)]
    pub fn opens_set(&self) -> (r: bool)
        ensures
            r == self.spec_opens_set(),
    {
        self.kind().is_container() && self.footprint().set > 0
    }

    #[verifier::when_used_as_spec(spec_is_bound)]
    pub fn is_bound(&self) -> (r: bool)
        ensures
            r == self.spec_is_bound(),
    {
        let kind = self.kind();
        kind.is_resource() || kind == Kind::Sampler
    }

    #[verifier::when_used_as_spec(spec_opens_slot)]
    pub fn opens_slot(&self) -> (r: bool)
        ensures
            r == self.spec_opens_slot(),
    {
        (self.kind().is_container() && self.footprint().slot > 0) || (self.is_bound()
            && self.size.slot > 0)
    }
}

/// A node has no more named children than a machine word can count.
pub proof fn lemma_field_count_fits(node: LayoutNode)
    ensures
        node.spec_fields().len() <= usize::MAX,
{
    match node.shape {
        Shape::Struct { fields } => {
            assert(fields@.len() == fields.len());
        },
        _ => {},
    }
}

} // verus!
