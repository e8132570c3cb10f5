//! Writing values into the pool. Every value type can project itself at a
//! cursor: a plain value overwrites the bytes at its coordinate, a composite
//! navigates to each of its parts and lets the part write itself.

use crate::cursor::Cursor;
use crate::encode::{
    i32_bits, le_bytes, spec_i32_bits, spec_le_bytes, splice, write_bytes, zeroed, zeros, Float32,
    Matrix3, Vector3,
};
use crate::offset::Offset;
use crate::pool::{BindingResources, Buffer, BufferImage, PoolView};
use crate::store::{lookup, put, take};
use vstd::prelude::*;

verus! {

broadcast use vstd::std_specs::hash::group_hash_axioms;

/// Why a value cannot be written.
#[derive(Clone, Copy, Debug, PartialEq, Eq, Structural)]
pub enum WriteError {
    /// The value's shape asks for a navigation that the layout does not have.
    NoSuchPath,
    /// The pool has no buffer at the cursor's set and slot.
    MissingBuffer,
    /// The bytes would end past the end of the buffer.
    OutOfBounds,
    /// A size or an index leaves the machine word.
    SizeOverflow,
}

/// The pool after `bytes` have been written at `at`: the buffer at the set
/// and slot of `at` has them from the uniform offset on, and nothing else
/// differs.
pub open spec fn spec_write_bytes(pool: PoolView, at: Offset, bytes: Seq<u8>) -> Result<
    PoolView,
    WriteError,
> {
    let key = (at.set, at.slot);
    if !pool.buffers.contains_key(key) {
        Err(WriteError::MissingBuffer)
    } else if at.uniform + bytes.len() > pool.buffers[key].bytes.len() {
        Err(WriteError::OutOfBounds)
    } else {
        Ok(
            PoolView {
                buffers: pool.buffers.insert(
                    key,
                    BufferImage {
                        usage: pool.buffers[key].usage,
                        bytes: splice(pool.buffers[key].bytes, at.uniform as int, bytes),
                    },
                ),
                ..pool
            },
        )
    }
}

/// The pool with the buffer at the set and slot of `at` holding exactly
/// `size` bytes: a buffer of another size gives way to a zeroed one of the
/// same usage.
pub open spec fn spec_resized(pool: PoolView, at: Offset, size: nat) -> Result<
    PoolView,
    WriteError,
> {
    let key = (at.set, at.slot);
    if !pool.buffers.contains_key(key) {
        Err(WriteError::MissingBuffer)
    } else if pool.buffers[key].bytes.len() == size {
        Ok(pool)
    } else {
        Ok(
            PoolView {
                buffers: pool.buffers.insert(
                    key,
                    BufferImage { usage: pool.buffers[key].usage, bytes: zeros(size) },
                ),
                ..pool
            },
        )
    }
}

/// Overwrites the bytes of the buffer at the set and slot of `at`, from the
/// uniform offset on. The pool is left as it was where that cannot be done.
pub fn write_buffer(binding_resources: &mut BindingResources, at: Offset, bytes: &Vec<u8>) -> (r:
    Result<(), WriteError>)
    ensures
        match spec_write_bytes(old(binding_resources)@, at, bytes@) {
            Ok(p) => r is Ok && final(binding_resources)@ == p,
            Err(e) => r == Err::<(), WriteError>(e) && final(binding_resources)@ == old(
                binding_resources,
            )@,
        },
{
    let ghost before = binding_resources@;
    let mut buffer = match take(&mut binding_resources.buffers, at.set, at.slot) {
        Some(buffer) => buffer,
        None => {
            assert(binding_resources@.buffers =~= before.buffers);
            return Err(WriteError::MissingBuffer);
        },
    };
    let written = write_bytes(&mut buffer.contents, at.uniform, bytes);
    put(&mut binding_resources.buffers, at.set, at.slot, buffer);
    if written {
        assert(binding_resources@.buffers =~= spec_write_bytes(
            before,
            at,
            bytes@,
        ).unwrap().buffers);
        Ok(())
    } else {
        assert(binding_resources@.buffers =~= before.buffers);
        Err(WriteError::OutOfBounds)
    }
}

/// Makes the buffer at the set and slot of `at` hold exactly `size` bytes.
pub fn resize_buffer(binding_resources: &mut BindingResources, at: Offset, size: usize) -> (r:
    Result<(), WriteError>)
    ensures
        match spec_resized(old(binding_resources)@, at, size as nat) {
            Ok(p) => r is Ok && final(binding_resources)@ == p,
            Err(e) => r == Err::<(), WriteError>(e) && final(binding_resources)@ == old(
                binding_resources,
            )@,
        },
{
    let ghost before = binding_resources@;
    let buffer = match take(&mut binding_resources.buffers, at.set, at.slot) {
        Some(buffer) => buffer,
        None => {
            assert(binding_resources@.buffers =~= before.buffers);
            return Err(WriteError::MissingBuffer);
        },
    };
    if buffer.contents.len() == size {
        put(&mut binding_resources.buffers, at.set, at.slot, buffer);
        assert(binding_resources@.buffers =~= before.buffers);
    } else {
        let fresh = Buffer { usage: buffer.usage, contents: zeroed(size) };
        put(&mut binding_resources.buffers, at.set, at.slot, fresh);
        assert(binding_resources@.buffers =~= spec_resized(
            before,
            at,
            size as nat,
        ).unwrap().buffers);
    }
    Ok(())
}

/// The `len` bytes of the buffer at the set and slot of `at`, from the
/// uniform offset on; `None` where the pool has no such buffer or the buffer
/// ends before them.
pub fn read_buffer(binding_resources: &BindingResources, at: Offset, len: usize) -> (r: Option<
    Vec<u8>,
>)
    ensures
        r is Some <==> binding_resources@.buffers.contains_key((at.set, at.slot)) && at.uniform
            + len <= binding_resources@.buffers[(at.set, at.slot)].bytes.len(),
        r is Some ==> r.unwrap()@ == binding_resources@.buffers[(at.set, at.slot)].bytes.subrange(
            at.uniform as int,
            at.uniform + len,
        ),
{
    let buffer = match lookup(&binding_resources.buffers, at.set, at.slot) {
        Some(buffer) => buffer,
        None => { return None; },
    };
    if len > buffer.contents.len() || at.uniform > buffer.contents.len() - len {
        return None;
    }
    let mut out: Vec<u8> = Vec::new();
    let mut i: usize = 0;
    while i < len
        invariant
            i <= len,
            at.uniform + len <= buffer.contents@.len(),
            buffer.contents@.len() <= usize::MAX,
            out@ == buffer.contents@.subrange(at.uniform as int, at.uniform + i),
        decreases len - i,
    {
        out.push(buffer.contents[at.uniform + i]);
        i += 1;
        assert(out@ =~= buffer.contents@.subrange(at.uniform as int, at.uniform + i));
    }
    Some(out)
}

/// A value that can write itself into the pool at a cursor.
pub trait Writable {
    /// The pool after the value has been written at `c`, or why it cannot
    /// be.
    spec fn spec_written(&self, c: Cursor, pool: PoolView) -> Result<PoolView, WriteError>;

    /// The pool that the write leaves behind where it fails: what was
    /// written before the error was met stays written.
    spec fn spec_left(&self, c: Cursor, pool: PoolView) -> PoolView;

    /// Writes the value at `c` if it can be written there, and says why it
    /// cannot where it cannot.
    fn try_write_at_cursor(&self, c: Cursor, binding_resources: &mut BindingResources) -> (r: Result<
        (),
        WriteError,
    >)
        ensures
            match self.spec_written(c, old(binding_resources)@) {
                Ok(p) => r is Ok && final(binding_resources)@ == p,
                Err(e) => r == Err::<(), WriteError>(e) && final(binding_resources)@
                    == self.spec_left(c, old(binding_resources)@),
            },
    ;

    /// Writes the value at `c`. The value must be one that can be written
    /// there: a cursor without the path that the value's shape asks for, or
    /// a pool without the buffer at the cursor's set and slot, is no input
    /// to this function.
    fn write_at_cursor(&self, c: Cursor, binding_resources: &mut BindingResources)
        requires
            self.spec_written(c, old(binding_resources)@) is Ok,
        ensures
            final(binding_resources)@ == self.spec_written(c, old(binding_resources)@).unwrap(),
    ;
}

impl Writable for Float32 {
    open spec fn spec_written(&self, c: Cursor, pool: PoolView) -> Result<PoolView, WriteError> {
        spec_write_bytes(pool, c.offset, self.spec_to_bytes())
    }

    open spec fn spec_left(&self, c: Cursor, pool: PoolView) -> PoolView {
        pool
    }

    fn try_write_at_cursor(&self, c: Cursor, binding_resources: &mut BindingResources) -> (r: Result<
        (),
        WriteError,
    >) {
        let bytes = self.to_bytes();
        write_buffer(binding_resources, c.offset(), &bytes)
    }

    fn write_at_cursor(&self, c: Cursor, binding_resources: &mut BindingResources) {
        let bytes = self.to_bytes();
        write_buffer(binding_resources, c.offset(), &bytes).unwrap()
    }
}

impl Writable for i32 {
    open spec fn spec_written(&self, c: Cursor, pool: PoolView) -> Result<PoolView, WriteError> {
        spec_write_bytes(pool, c.offset, spec_le_bytes(spec_i32_bits(*self)))
    }

    open spec fn spec_left(&self, c: Cursor, pool: PoolView) -> PoolView {
        pool
    }

    fn try_write_at_cursor(&self, c: Cursor, binding_resources: &mut BindingResources) -> (r: Result<
        (),
        WriteError,
    >) {
        let bytes = le_bytes(i32_bits(*self));
        write_buffer(binding_resources, c.offset(), &bytes)
    }

    fn write_at_cursor(&self, c: Cursor, binding_resources: &mut BindingResources) {
        let bytes = le_bytes(i32_bits(*self));
        write_buffer(binding_resources, c.offset(), &bytes).unwrap()
    }
}

impl Writable for Vector3 {
    open spec fn spec_written(&self, c: Cursor, pool: PoolView) -> Result<PoolView, WriteError> {
        spec_write_bytes(pool, c.offset, self.spec_to_bytes())
    }

    open spec fn spec_left(&self, c: Cursor, pool: PoolView) -> PoolView {
        pool
    }

    fn try_write_at_cursor(&self, c: Cursor, binding_resources: &mut BindingResources) -> (r: Result<
        (),
        WriteError,
    >) {
        let data = self.to_bytes();
        write_buffer(binding_resources, c.offset(), &data)
    }

    fn write_at_cursor(&self, c: Cursor, binding_resources: &mut BindingResources) {
        let data = self.to_bytes();
        write_buffer(binding_resources, c.offset(), &data).unwrap()
    }
}

impl Writable for Matrix3 {
    open spec fn spec_written(&self, c: Cursor, pool: PoolView) -> Result<PoolView, WriteError> {
        spec_write_bytes(pool, c.offset, self.spec_to_bytes())
    }

    open spec fn spec_left(&self, c: Cursor, pool: PoolView) -> PoolView {
        pool
    }

    fn try_write_at_cursor(&self, c: Cursor, binding_resources: &mut BindingResources) -> (r: Result<
        (),
        WriteError,
    >) {
        let data = self.to_bytes();
        write_buffer(binding_resources, c.offset(), &data)
    }

    fn write_at_cursor(&self, c: Cursor, binding_resources: &mut BindingResources) {
        let data = self.to_bytes();
        write_buffer(binding_resources, c.offset(), &data).unwrap()
    }
}

/// A value that lives in a container of its own.
pub struct ConstantBuffer<T>(pub T);

impl<T: Writable> Writable for ConstantBuffer<T> {
    open spec fn spec_written(&self, c: Cursor, pool: PoolView) -> Result<PoolView, WriteError> {
        match c.spec_navigate_child() {
            Some(element_cursor) => self.0.spec_written(element_cursor, pool),
            None => Err(WriteError::NoSuchPath),
        }
    }

    open spec fn spec_left(&self, c: Cursor, pool: PoolView) -> PoolView {
        match c.spec_navigate_child() {
            Some(element_cursor) => self.0.spec_left(element_cursor, pool),
            None => pool,
        }
    }

    fn try_write_at_cursor(&self, c: Cursor, binding_resources: &mut BindingResources) -> (r: Result<
        (),
        WriteError,
    >) {
        match c.navigate_child() {
            Some(element_cursor) => self.0.try_write_at_cursor(element_cursor, binding_resources),
            None => Err(WriteError::NoSuchPath),
        }
    }

    fn write_at_cursor(&self, c: Cursor, binding_resources: &mut BindingResources) {
        let element_cursor = c.navigate_child().unwrap();
        self.0.write_at_cursor(element_cursor, binding_resources)
    }
}

/// A variable-length collection that fills a buffer of its own, element
/// after element.
pub struct StructuredBuffer<T>(pub Vec<T>);

/// The pool after the first `count` of `items` have been written, each at the
/// cursor of its index under `c`.
pub open spec fn spec_written_items<T: Writable>(
    items: Seq<T>,
    count: nat,
    c: Cursor,
    pool: PoolView,
) -> Result<PoolView, WriteError>
    decreases count,
{
    if count == 0 || count > items.len() {
        Ok(pool)
    } else {
        match spec_written_items(items, (count - 1) as nat, c, pool) {
            Ok(p) => match c.spec_navigate_index(count - 1) {
                Some(element_cursor) => items[count - 1].spec_written(element_cursor, p),
                None => Err(WriteError::NoSuchPath),
            },
            Err(e) => Err(e),
        }
    }
}

/// The pool that writing the first `count` of `items` leaves behind where
/// it fails: the items before the failing one are written, and the failing
/// one has left what it leaves.
pub open spec fn spec_left_items<T: Writable>(
    items: Seq<T>,
    count: nat,
    c: Cursor,
    pool: PoolView,
) -> PoolView
    decreases count,
{
    if count == 0 || count > items.len() {
        pool
    } else {
        match spec_written_items(items, (count - 1) as nat, c, pool) {
            Ok(p) => match c.spec_navigate_index(count - 1) {
                Some(element_cursor) => items[count - 1].spec_left(element_cursor, p),
                None => p,
            },
            Err(_) => spec_left_items(items, (count - 1) as nat, c, pool),
        }
    }
}

/// An error among the first `count` items is the error of the whole list.
pub proof fn lemma_written_items_error<T: Writable>(
    items: Seq<T>,
    count: nat,
    total: nat,
    c: Cursor,
    pool: PoolView,
)
    requires
        count <= total <= items.len(),
        spec_written_items(items, count, c, pool) is Err,
    ensures
        spec_written_items(items, total, c, pool) == spec_written_items(items, count, c, pool),
        spec_left_items(items, total, c, pool) == spec_left_items(items, count, c, pool),
    decreases total,
{
    if count < total {
        lemma_written_items_error(items, count, (total - 1) as nat, c, pool);
    }
}

impl<T: Writable> Writable for StructuredBuffer<T> {
    /// The buffer at the cursor is made to hold as many bytes as the items
    /// need, the uniform stride of the element for each; then every item is
    /// written at its index.
    open spec fn spec_written(&self, c: Cursor, pool: PoolView) -> Result<PoolView, WriteError> {
        match c.type_layout.spec_indexed_element() {
            Some(element) => {
                if self.0@.len() > u32::MAX || self.0@.len() * element.stride.uniform
                    > usize::MAX {
                    Err(WriteError::SizeOverflow)
                } else {
                    match spec_resized(
                        pool,
                        c.offset,
                        (self.0@.len() * element.stride.uniform) as nat,
                    ) {
                        Ok(p) => spec_written_items(self.0@, self.0@.len(), c, p),
                        Err(e) => Err(e),
                    }
                }
            },
            None => Err(WriteError::NoSuchPath),
        }
    }

    open spec fn spec_left(&self, c: Cursor, pool: PoolView) -> PoolView {
        match c.type_layout.spec_indexed_element() {
            Some(element) => {
                if self.0@.len() > u32::MAX || self.0@.len() * element.stride.uniform
                    > usize::MAX {
                    pool
                } else {
                    match spec_resized(
                        pool,
                        c.offset,
                        (self.0@.len() * element.stride.uniform) as nat,
                    ) {
                        Ok(p) => spec_left_items(self.0@, self.0@.len(), c, p),
                        Err(_) => pool,
                    }
                }
            },
            None => pool,
        }
    }

    fn try_write_at_cursor(&self, c: Cursor, binding_resources: &mut BindingResources) -> (r: Result<
        (),
        WriteError,
    >) {
        let element = match c.type_layout().indexed_element() {
            Some(element) => element,
            None => { return Err(WriteError::NoSuchPath); },
        };
        if self.0.len() > u32::MAX as usize {
            return Err(WriteError::SizeOverflow);
        }
        let total_bytes_needed = match self.0.len().checked_mul(element.stride.uniform) {
            Some(total) => total,
            None => { return Err(WriteError::SizeOverflow); },
        };
        match resize_buffer(binding_resources, c.offset(), total_bytes_needed) {
            Ok(()) => {},
            Err(e) => { return Err(e); },
        }
        let ghost resized = binding_resources@;
        let mut i: usize = 0;
        while i < self.0.len()
            invariant
                i <= self.0.len(),
                self.0.len() <= u32::MAX,
                self.spec_written(c, old(binding_resources)@) == spec_written_items(
                    self.0@,
                    self.0@.len(),
                    c,
                    resized,
                ),
                self.spec_left(c, old(binding_resources)@) == spec_left_items(
                    self.0@,
                    self.0@.len(),
                    c,
                    resized,
                ),
                spec_written_items(self.0@, i as nat, c, resized) == Ok::<PoolView, WriteError>(
                    binding_resources@,
                ),
            decreases self.0.len() - i,
        {
            let outcome = match c.navigate_index(i as u32) {
                Some(element_cursor) => self.0[i].try_write_at_cursor(element_cursor, binding_resources),
                None => Err(WriteError::NoSuchPath),
            };
            match outcome {
                Ok(()) => {},
                Err(e) => {
                    proof {
                        lemma_written_items_error(
                            self.0@,
                            (i + 1) as nat,
                            self.0@.len(),
                            c,
                            resized,
                        );
                    }
                    return Err(e);
                },
            }
            i += 1;
        }
        Ok(())
    }

    fn write_at_cursor(&self, c: Cursor, binding_resources: &mut BindingResources) {
        let element = c.type_layout().indexed_element().unwrap();
        let total_bytes_needed = self.0.len().checked_mul(element.stride.uniform).unwrap();
        resize_buffer(binding_resources, c.offset(), total_bytes_needed).unwrap();
        let ghost resized = binding_resources@;
        let mut i: usize = 0;
        while i < self.0.len()
            invariant
                i <= self.0.len(),
                self.0.len() <= u32::MAX,
                spec_written_items(self.0@, self.0@.len(), c, resized) is Ok,
                self.spec_written(c, old(binding_resources)@) == spec_written_items(
                    self.0@,
                    self.0@.len(),
                    c,
                    resized,
                ),
                spec_written_items(self.0@, i as nat, c, resized) == Ok::<PoolView, WriteError>(
                    binding_resources@,
                ),
            decreases self.0.len() - i,
        {
            proof {
                if spec_written_items(self.0@, (i + 1) as nat, c, resized) is Err {
                    lemma_written_items_error(self.0@, (i + 1) as nat, self.0@.len(), c, resized);
                }
            }
            let element_cursor = c.navigate_index(i as u32).unwrap();
            self.0[i].write_at_cursor(element_cursor, binding_resources);
            i += 1;
        }
    }
}

/// The parts of a composite, in the order of its declaration. Each part is
/// written at the field of its position.
pub trait FieldList {
    /// The pool after the parts have been written, the first of them at the
    /// field `index` of `c`.
    spec fn spec_written_from(&self, c: Cursor, index: nat, pool: PoolView) -> Result<
        PoolView,
        WriteError,
    >;

    /// The pool that the write leaves behind where it fails.
    spec fn spec_left_from(&self, c: Cursor, index: nat, pool: PoolView) -> PoolView;

    /// Writes the parts if they can be written, and says why they cannot
    /// where they cannot.
    fn try_write_fields_from(
        &self,
        c: Cursor,
        index: usize,
        binding_resources: &mut BindingResources,
    ) -> (r: Result<(), WriteError>)
        ensures
            match self.spec_written_from(c, index as nat, old(binding_resources)@) {
                Ok(p) => r is Ok && final(binding_resources)@ == p,
                Err(e) => r == Err::<(), WriteError>(e) && final(binding_resources)@
                    == self.spec_left_from(c, index as nat, old(binding_resources)@),
            },
    ;

    /// Writes the parts, the first of them at the field `index` of `c`. The
    /// parts must be ones that can be written there.
    fn write_fields_from(&self, c: Cursor, index: usize, binding_resources: &mut BindingResources)
        requires
            self.spec_written_from(c, index as nat, old(binding_resources)@) is Ok,
        ensures
            final(binding_resources)@ == self.spec_written_from(
                c,
                index as nat,
                old(binding_resources)@,
            ).unwrap(),
    ;
}

/// No parts.
pub struct NoFields;

/// One part and the parts after it.
pub struct Fields<H, T>(pub H, pub T);

impl FieldList for NoFields {
    open spec fn spec_written_from(&self, c: Cursor, index: nat, pool: PoolView) -> Result<
        PoolView,
        WriteError,
    > {
        Ok(pool)
    }

    open spec fn spec_left_from(&self, c: Cursor, index: nat, pool: PoolView) -> PoolView {
        pool
    }

    fn try_write_fields_from(
        &self,
        c: Cursor,
        index: usize,
        binding_resources: &mut BindingResources,
    ) -> (r: Result<(), WriteError>) {
        Ok(())
    }

    fn write_fields_from(&self, c: Cursor, index: usize, binding_resources: &mut BindingResources) {
    }
}

impl<H: Writable, T: FieldList> FieldList for Fields<H, T> {
    open spec fn spec_written_from(&self, c: Cursor, index: nat, pool: PoolView) -> Result<
        PoolView,
        WriteError,
    > {
        if index > u32::MAX {
            Err(WriteError::NoSuchPath)
        } else {
            match c.spec_navigate_field(index as int) {
                Some(cursor) => match self.0.spec_written(cursor, pool) {
                    Ok(p) => self.1.spec_written_from(c, index + 1, p),
                    Err(e) => Err(e),
                },
                None => Err(WriteError::NoSuchPath),
            }
        }
    }

    open spec fn spec_left_from(&self, c: Cursor, index: nat, pool: PoolView) -> PoolView {
        if index > u32::MAX {
            pool
        } else {
            match c.spec_navigate_field(index as int) {
                Some(cursor) => match self.0.spec_written(cursor, pool) {
                    Ok(p) => self.1.spec_left_from(c, index + 1, p),
                    Err(_) => self.0.spec_left(cursor, pool),
                },
                None => pool,
            }
        }
    }

    fn try_write_fields_from(
        &self,
        c: Cursor,
        index: usize,
        binding_resources: &mut BindingResources,
    ) -> (r: Result<(), WriteError>) {
        if index > u32::MAX as usize {
            return Err(WriteError::NoSuchPath);
        }
        let cursor = match c.navigate_field(index as u32) {
            Some(cursor) => cursor,
            None => { return Err(WriteError::NoSuchPath); },
        };
        match self.0.try_write_at_cursor(cursor, binding_resources) {
            Ok(()) => {},
            Err(e) => { return Err(e); },
        }
        proof {
            crate::layout::lemma_field_count_fits(*c.type_layout);
        }
        self.1.try_write_fields_from(c, index + 1, binding_resources)
    }

    fn write_fields_from(&self, c: Cursor, index: usize, binding_resources: &mut BindingResources) {
        let cursor = c.navigate_field(index as u32).unwrap();
        self.0.write_at_cursor(cursor, binding_resources);
        proof {
            crate::layout::lemma_field_count_fits(*c.type_layout);
        }
        self.1.write_fields_from(c, index + 1, binding_resources)
    }
}

/// A struct-like value: its parts are written at the fields of the cursor,
/// the first part at field zero.
pub struct Composite<L>(pub L);

impl<L: FieldList> Writable for Composite<L> {
    open spec fn spec_written(&self, c: Cursor, pool: PoolView) -> Result<PoolView, WriteError> {
        self.0.spec_written_from(c, 0, pool)
    }

    open spec fn spec_left(&self, c: Cursor, pool: PoolView) -> PoolView {
        self.0.spec_left_from(c, 0, pool)
    }

    fn try_write_at_cursor(&self, c: Cursor, binding_resources: &mut BindingResources) -> (r: Result<
        (),
        WriteError,
    >) {
        self.0.try_write_fields_from(c, 0, binding_resources)
    }

    fn write_at_cursor(&self, c: Cursor, binding_resources: &mut BindingResources) {
        self.0.write_fields_from(c, 0, binding_resources)
    }
}

/// Reading back what was written: after bytes were written at a coordinate,
/// the buffer at its set and slot holds them from its uniform offset on. The
/// buffer keeps its size, its usage and its other bytes, and no other
/// resource of the pool differs.
pub proof fn lemma_write_reads_back(pool: PoolView, at: Offset, bytes: Seq<u8>)
    requires
        spec_write_bytes(pool, at, bytes) is Ok,
    ensures
        ({
            let after = spec_write_bytes(pool, at, bytes).unwrap();
            let key = (at.set, at.slot);
            &&& after.buffers.contains_key(key)
            &&& after.buffers[key].bytes.subrange(at.uniform as int, at.uniform + bytes.len())
                == bytes
            &&& after.buffers[key].bytes.len() == pool.buffers[key].bytes.len()
            &&& after.buffers[key].usage == pool.buffers[key].usage
            &&& forall|i: int|
                0 <= i < pool.buffers[key].bytes.len() && !(at.uniform <= i < at.uniform
                    + bytes.len()) ==> #[trigger] after.buffers[key].bytes[i]
                    == pool.buffers[key].bytes[i]
            &&& after.buffers.remove(key) == pool.buffers.remove(key)
            &&& after.textures == pool.textures
            &&& after.texture_views == pool.texture_views
            &&& after.samplers == pool.samplers
        }),
{
    let key = (at.set, at.slot);
    crate::encode::lemma_splice_reads_back(pool.buffers[key].bytes, at.uniform as int, bytes);
    let after = spec_write_bytes(pool, at, bytes).unwrap();
    assert(after.buffers.remove(key) =~= pool.buffers.remove(key));
}

} // verus!
