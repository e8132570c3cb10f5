//! Coordinates for shader parameter layouts.
//!
//! A reflected parameter layout is a tree of nested structs, arrays,
//! resources and containers. A graphics backend addresses resources by a
//! flat pair of descriptor-set index and slot index, plus a byte offset
//! inside a buffer. This library derives the flat coordinate of every node
//! of the tree, lists the bindings that each descriptor set must expose, and
//! writes values into a pool of resources at their coordinates.
//!
//! - [`layout`]: the layout tree as plain data.
//! - [`offset`], [`cursor`]: coordinates, and navigation through the tree.
//! - [`binding`]: the builder of the binding layout.
//! - [`pool`], [`store`]: the resources behind the bindings.
//! - [`encode`], [`writable`], [`texture`]: values and how they are written.
//! - [`walk`]: a listing of a layout.
//! - [`route`], [`agreement`], [`allocation`], [`coherence`]: when the
//!   coordinates of the cursor are the ones the builder assigns, and a check
//!   for it.

pub mod agreement;
pub mod allocation;
pub mod binding;
pub mod coherence;
pub mod cursor;
pub mod encode;
pub mod layout;
pub mod offset;
pub mod pool;
pub mod route;
pub mod store;
pub mod texture;
pub mod walk;
pub mod writable;
