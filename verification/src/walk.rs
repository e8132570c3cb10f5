//! A listing of a layout: every variable with the name of its type, its kind
//! and its coordinate, parents before children.

use crate::cursor::Cursor;
use crate::layout::{Field, Kind, Shape};
use crate::offset::Offset;
use vstd::prelude::*;

verus! {

/// One line of the listing.
#[derive(Debug)]
pub struct WalkEntry {
    pub name: String,
    pub type_label: String,
    pub kind: Kind,
    pub offset: Offset,
}

/// The line for `vl` at `c`.
pub open spec fn spec_entry(vl: Field, c: Cursor) -> WalkEntry {
    WalkEntry {
        name: vl.name,
        type_label: vl.node.name,
        kind: vl.node.spec_kind(),
        offset: c.offset,
    }
}

/// The listing of `vl` at `c`: its own line, then the listing of each of its
/// named children at the cursor of that field, then, where `c` has a
/// container's element to go to, the listing of the element. There is no
/// listing where `c` has no field for one of the named children.
pub open spec fn spec_listing(vl: Field, c: Cursor) -> Option<Seq<WalkEntry>>
    decreases vl, 0nat,
{
    match vl.node.shape {
        Shape::Struct { fields } => match spec_listing_fields(fields, fields@.len(), c) {
            Some(lines) => Some(seq![spec_entry(vl, c)] + lines),
            None => None,
        },
        Shape::ConstantBuffer { content, .. } => spec_with_child(
            vl,
            c,
            spec_listing(*content, c.spec_navigate_child().unwrap()),
        ),
        Shape::ParameterBlock { content, .. } => spec_with_child(
            vl,
            c,
            spec_listing(*content, c.spec_navigate_child().unwrap()),
        ),
        Shape::TextureBuffer { content, .. } => spec_with_child(
            vl,
            c,
            spec_listing(*content, c.spec_navigate_child().unwrap()),
        ),
        Shape::ShaderStorageBuffer { content, .. } => spec_with_child(
            vl,
            c,
            spec_listing(*content, c.spec_navigate_child().unwrap()),
        ),
        _ => Some(seq![spec_entry(vl, c)]),
    }
}

/// The line of a container, followed by the listing of its element where `c`
/// has an element to go to.
pub open spec fn spec_with_child(vl: Field, c: Cursor, element: Option<Seq<WalkEntry>>) -> Option<
    Seq<WalkEntry>,
> {
    if c.spec_navigate_child() is Some {
        match element {
            Some(lines) => Some(seq![spec_entry(vl, c)] + lines),
            None => None,
        }
    } else {
        Some(seq![spec_entry(vl, c)])
    }
}

/// The listings of the first `count` of `fields`, one after the other.
pub open spec fn spec_listing_fields(fields: Vec<Field>, count: nat, c: Cursor) -> Option<
    Seq<WalkEntry>,
>
    decreases fields, count,
{
    if count == 0 || count > fields@.len() || count > u32::MAX {
        if count == 0 {
            Some(Seq::empty())
        } else {
            None
        }
    } else {
        match spec_listing_fields(fields, (count - 1) as nat, c) {
            Some(lines) => match c.spec_navigate_field(count - 1) {
                Some(field_cursor) => match spec_listing(fields@[count - 1], field_cursor) {
                    Some(more) => Some(lines + more),
                    None => None,
                },
                None => None,
            },
            None => None,
        }
    }
}

/// No listing for the first `count` fields means none for all of them.
pub proof fn lemma_listing_fields_none(fields: Vec<Field>, count: nat, total: nat, c: Cursor)
    requires
        count <= total <= fields@.len(),
        spec_listing_fields(fields, count, c) is None,
    ensures
        spec_listing_fields(fields, total, c) is None,
    decreases total,
{
    if count < total {
        lemma_listing_fields_none(fields, count, (total - 1) as nat, c);
    }
}

/// Adds the listing of `vl` at `c` to `out`. Returns whether there is one.
fn walk_into(vl: &Field, c: Cursor, out: &mut Vec<WalkEntry>) -> (listed: bool)
    ensures
        listed <==> spec_listing(*vl, c) is Some,
        listed ==> final(out)@ == old(out)@ + spec_listing(*vl, c).unwrap(),
    decreases *vl,
{
    out.push(
        WalkEntry {
            name: vl.name.clone(),
            type_label: vl.node.name.clone(),
            kind: vl.node.kind(),
            offset: c.offset(),
        },
    );
    assert(out@ == old(out)@ + seq![spec_entry(*vl, c)]);
    match &vl.node.shape {
        Shape::Struct { fields } => {
            let mut i: usize = 0;
            while i < fields.len()
                invariant
                    i <= fields.len(),
                    vl.node.shape == (Shape::Struct { fields: *fields }),
                    spec_listing_fields(*fields, i as nat, c) is Some,
                    out@ == old(out)@ + seq![spec_entry(*vl, c)] + spec_listing_fields(
                        *fields,
                        i as nat,
                        c,
                    ).unwrap(),
                decreases fields.len() - i,
            {
                let ghost total = fields@.len();
                let ghost before = out@;
                let listed = if i >= u32::MAX as usize {
                    false
                } else {
                    match c.navigate_field(i as u32) {
                        Some(field_cursor) => walk_into(&fields[i], field_cursor, out),
                        None => false,
                    }
                };
                if !listed {
                    proof {
                        lemma_listing_fields_none(*fields, (i + 1) as nat, total, c);
                    }
                    return false;
                }
                proof {
                    let lines = spec_listing_fields(*fields, i as nat, c).unwrap();
                    let more = spec_listing(
                        fields@[i as int],
                        c.spec_navigate_field(i as int).unwrap(),
                    ).unwrap();
                    assert(out@ == before + more);
                    assert(before + more =~= old(out)@ + seq![spec_entry(*vl, c)] + (lines
                        + more));
                }
                i += 1;
            }
            proof {
                let lines = spec_listing_fields(*fields, fields@.len(), c).unwrap();
                assert(old(out)@ + seq![spec_entry(*vl, c)] + lines =~= old(out)@ + (seq![
                    spec_entry(*vl, c),
                ] + lines));
            }
            true
        },
        Shape::ConstantBuffer { content, .. }
        | Shape::ParameterBlock { content, .. }
        | Shape::TextureBuffer { content, .. }
        | Shape::ShaderStorageBuffer { content, .. } => {
            match c.navigate_child() {
                Some(element_cursor) => {
                    let ghost before = out@;
                    let listed = walk_into(&**content, element_cursor, out);
                    proof {
                        if listed {
                            let lines = spec_listing(**content, element_cursor).unwrap();
                            assert(before + lines =~= old(out)@ + (seq![spec_entry(*vl, c)]
                                + lines));
                        }
                    }
                    listed
                },
                None => true,
            }
        },
        _ => true,
    }
}

/// The listing of `vl` at `c`, if there is one: one line for each variable,
/// parents before children.
pub fn try_walk_him_down(vl: &Field, c: Cursor) -> (r: Option<Vec<WalkEntry>>)
    ensures
        r is Some <==> spec_listing(*vl, c) is Some,
        r is Some ==> r.unwrap()@ == spec_listing(*vl, c).unwrap(),
{
    let mut out: Vec<WalkEntry> = Vec::new();
    if walk_into(vl, c, &mut out) {
        assert(Seq::<WalkEntry>::empty() + spec_listing(*vl, c).unwrap() =~= spec_listing(
            *vl,
            c,
        ).unwrap());
        Some(out)
    } else {
        None
    }
}

/// The listing of `vl` at `c`, for a caller to print: one line for each
/// variable, parents before children. The cursor must have a field for each
/// named child on the way: a cursor that lacks one is no input to this
/// function.
pub fn walk_him_down(vl: &Field, c: Cursor) -> (lines: Vec<WalkEntry>)
    requires
        spec_listing(*vl, c) is Some,
    ensures
        lines@ == spec_listing(*vl, c).unwrap(),
{
    try_walk_him_down(vl, c).unwrap()
}

} // verus!
