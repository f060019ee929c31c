//! What holds of every elaboration, proved of the walk over the model.

use vstd::prelude::*;

use crate::memory_map::elaborate::{
    elaborate, elaborate_all, footprint, is_placed, lemma_walk_keeps_length, place, verdict,
    ElaborationError,
};
use crate::memory_map::layout::bytes_for_bits;
use crate::memory_map::schema::{Access, Children, FieldModel, FieldType, Protocol};
use crate::memory_map::validate::Verdict;

verus! {

/// No field of the tree has an address of its own.
pub open spec fn unaddressed(field: FieldModel) -> bool
    decreases field,
{
    &&& field.address is None
    &&& match field.contains {
        None => true,
        Some(Children::One(child)) => unaddressed(*child),
        Some(Children::More(children)) => forall|at: int|
            0 <= at < children.len() ==> unaddressed(#[trigger] children[at]),
    }
}

/// Every placed field of the tree has an address and an access permission,
/// and ends no higher than the highest address of the protocol.
pub open spec fn laid_out(field: FieldModel, protocol: Protocol) -> bool
    decreases field,
{
    match field.field_type {
        FieldType::Group => match field.contains {
            None => true,
            Some(Children::One(child)) => laid_out(*child, protocol),
            Some(Children::More(children)) => forall|at: int|
                0 <= at < children.len() ==> laid_out(#[trigger] children[at], protocol),
        },
        FieldType::Enum { .. } => true,
        FieldType::Bitfield { .. } => true,
        _ => {
            &&& field.access is Some
            &&& field.address matches Some(address)
            &&& address + footprint(field.field_type, protocol.data_min) <= protocol.address_max
        },
    }
}

/// A field of a placed type never occupies a negative count of bytes.
pub proof fn lemma_footprint_not_negative(field_type: FieldType, data_min: u8)
    ensures
        footprint(field_type, data_min) >= 0,
{
}

/// A placed field that has no address of its own, and whose value is
/// accepted, gets the address at which the cursor stood when the walk came
/// to it.
pub proof fn law_unaddressed_leaf_takes_cursor(
    field: FieldModel,
    protocol: Protocol,
    inherited: Access,
    cursor: u64,
)
    requires
        is_placed(field.field_type),
        field.address is None,
        verdict(field) == Verdict::Accepted,
    ensures
        elaborate(field, protocol, inherited, cursor).field.address == Some(cursor),
{
}

/// An unsigned field of `length` bits occupies the larger of two counts of
/// bytes: the least count of whole bytes that hold `length` bits, and
/// `data_min`.
pub proof fn law_unsigned_footprint(length: u32, data_min: u8)
    ensures
        ({
            let bytes = footprint(FieldType::Unsigned(length), data_min);
            let whole = bytes_for_bits(length as int);
            &&& 8 * whole >= length > 8 * (whole - 1)
            &&& bytes >= whole
            &&& bytes >= data_min
            &&& bytes == whole || bytes == data_min
        }),
{
}

/// A placed field whose value is accepted and that would end beyond the
/// highest address of the protocol stops the walk with an address overflow
/// that names the field, its address, its bytes and the bound; and a walk
/// that goes through has moved the cursor to the end of the field, within the
/// bound.
pub proof fn law_overflow_is_reported(
    field: FieldModel,
    protocol: Protocol,
    inherited: Access,
    cursor: u64,
)
    requires
        is_placed(field.field_type),
        verdict(field) == Verdict::Accepted,
    ensures
        ({
            let out = elaborate(field, protocol, inherited, cursor);
            let bytes = footprint(field.field_type, protocol.data_min);
            let address = match field.address {
                Some(own) => own,
                None => cursor,
            };
            &&& address + bytes > protocol.address_max ==> out.result == Err::<
                (),
                ElaborationError,
            >(
                ElaborationError::AddressOverflow {
                    field: field.name,
                    address,
                    footprint: bytes as u64,
                    address_max: protocol.address_max,
                },
            )
            &&& address + bytes <= protocol.address_max ==> out.result is Ok && out.cursor
                == address + bytes
        }),
{
}

/// Where the walk over a sequence goes through, so does the walk over each
/// of its beginnings, and each field is elaborated from the cursor that the
/// fields before it left.
pub proof fn lemma_walk_by_steps(
    fields: Seq<FieldModel>,
    count: int,
    protocol: Protocol,
    inherited: Access,
    cursor: u64,
)
    requires
        0 <= count <= fields.len(),
        elaborate_all(fields, protocol, inherited, cursor).result is Ok,
    ensures
        elaborate_all(fields.take(count), protocol, inherited, cursor).result is Ok,
        count < fields.len() ==> ({
            let step = elaborate(
                fields[count],
                protocol,
                inherited,
                elaborate_all(fields.take(count), protocol, inherited, cursor).cursor,
            );
            &&& step.result is Ok
            &&& step.field == elaborate_all(fields, protocol, inherited, cursor).fields[count]
            &&& step.cursor == elaborate_all(
                fields.take(count + 1),
                protocol,
                inherited,
                cursor,
            ).cursor
        }),
    decreases fields.len(),
{
    if count == fields.len() {
        assert(fields.take(count) =~= fields);
    } else {
        let shorter = fields.drop_last();
        lemma_walk_keeps_length(shorter, protocol, inherited, cursor);
        assert(shorter.take(count) =~= fields.take(count));
        lemma_walk_by_steps(shorter, count, protocol, inherited, cursor);
        if count == fields.len() - 1 {
            assert(fields.take(count) =~= shorter);
            assert(fields.take(count + 1) =~= fields);
        } else {
            assert(shorter.take(count + 1) =~= fields.take(count + 1));
        }
    }
}

/// Over a tree without addresses of its own, a walk that goes through never
/// moves the cursor back, and a field that got an address got the cursor
/// from which the walk over it began.
pub proof fn lemma_unaddressed_advances(
    field: FieldModel,
    protocol: Protocol,
    inherited: Access,
    cursor: u64,
)
    requires
        unaddressed(field),
        elaborate(field, protocol, inherited, cursor).result is Ok,
    ensures
        cursor <= elaborate(field, protocol, inherited, cursor).cursor,
        elaborate(field, protocol, inherited, cursor).field.address matches Some(address)
            ==> address == cursor,
    decreases field,
{
    lemma_footprint_not_negative(field.field_type, protocol.data_min);
    match field.field_type {
        FieldType::Group => match field.contains {
            None => {},
            Some(Children::One(child)) => {
                lemma_unaddressed_advances(
                    *child,
                    protocol,
                    match field.access {
                        Some(access) => access,
                        None => inherited,
                    },
                    cursor,
                );
            },
            Some(Children::More(children)) => {
                lemma_unaddressed_all_advance(
                    children,
                    protocol,
                    match field.access {
                        Some(access) => access,
                        None => inherited,
                    },
                    cursor,
                );
            },
        },
        _ => {},
    }
}

/// Over fields without addresses of their own, a walk that goes through
/// never moves the cursor back.
pub proof fn lemma_unaddressed_all_advance(
    fields: Seq<FieldModel>,
    protocol: Protocol,
    inherited: Access,
    cursor: u64,
)
    requires
        forall|at: int| 0 <= at < fields.len() ==> unaddressed(#[trigger] fields[at]),
        elaborate_all(fields, protocol, inherited, cursor).result is Ok,
    ensures
        cursor <= elaborate_all(fields, protocol, inherited, cursor).cursor,
    decreases fields,
{
    if fields.len() > 0 {
        let shorter = fields.drop_last();
        assert forall|at: int| 0 <= at < shorter.len() implies unaddressed(
            #[trigger] shorter[at],
        ) by {
            assert(shorter[at] == fields[at]);
        }
        lemma_unaddressed_all_advance(shorter, protocol, inherited, cursor);
        lemma_unaddressed_advances(
            fields.last(),
            protocol,
            inherited,
            elaborate_all(shorter, protocol, inherited, cursor).cursor,
        );
    }
}

/// The fields of a group that supplies no addresses are placed in the order
/// in which they are declared: of two of them that got an address, the one
/// declared first has the lower address, or the same.
pub proof fn law_children_in_declaration_order(
    group: FieldModel,
    protocol: Protocol,
    inherited: Access,
    cursor: u64,
    first: int,
    second: int,
)
    requires
        group.field_type == FieldType::Group,
        group.contains matches Some(Children::More(children)) && 0 <= first < second
            < children.len() && (forall|at: int|
            0 <= at < children.len() ==> unaddressed(#[trigger] children[at])),
        elaborate(group, protocol, inherited, cursor).result is Ok,
    ensures
        elaborate(group, protocol, inherited, cursor).field.contains matches Some(
            Children::More(placed),
        ) && (placed[first].address matches Some(low) ==> placed[second].address matches Some(
            high,
        ) ==> cursor <= low <= high),
{
    let children = group.contains->0->More_0;
    let access = match group.access {
        Some(access) => access,
        None => inherited,
    };
    lemma_walk_by_steps(children, first, protocol, access, cursor);
    lemma_walk_by_steps(children, second, protocol, access, cursor);
    // the cursor does not move back from the end of `first` to `second`
    lemma_unaddressed_from(children, first + 1, second, protocol, access, cursor);
    assert forall|at: int| 0 <= at < children.take(first).len() implies unaddressed(
        #[trigger] children.take(first)[at],
    ) by {
        assert(children.take(first)[at] == children[at]);
    }
    lemma_unaddressed_all_advance(children.take(first), protocol, access, cursor);
    lemma_unaddressed_advances(
        children[first],
        protocol,
        access,
        elaborate_all(children.take(first), protocol, access, cursor).cursor,
    );
    lemma_unaddressed_advances(
        children[second],
        protocol,
        access,
        elaborate_all(children.take(second), protocol, access, cursor).cursor,
    );
}

/// Over fields without addresses of their own, the cursor after the first
/// `from` fields is no higher than the cursor after the first `to`.
pub proof fn lemma_unaddressed_from(
    fields: Seq<FieldModel>,
    from: int,
    to: int,
    protocol: Protocol,
    inherited: Access,
    cursor: u64,
)
    requires
        0 <= from <= to <= fields.len(),
        forall|at: int| 0 <= at < fields.len() ==> unaddressed(#[trigger] fields[at]),
        elaborate_all(fields, protocol, inherited, cursor).result is Ok,
    ensures
        elaborate_all(fields.take(from), protocol, inherited, cursor).cursor <= elaborate_all(
            fields.take(to),
            protocol,
            inherited,
            cursor,
        ).cursor,
    decreases to - from,
{
    if from < to {
        lemma_walk_by_steps(fields, from, protocol, inherited, cursor);
        lemma_unaddressed_advances(
            fields[from],
            protocol,
            inherited,
            elaborate_all(fields.take(from), protocol, inherited, cursor).cursor,
        );
        lemma_unaddressed_from(fields, from + 1, to, protocol, inherited, cursor);
    }
}

/// After an elaboration that went through, every placed field of the tree
/// has its address and its access permission and ends no higher than the
/// highest address of the protocol.
pub proof fn law_elaborated_tree_is_laid_out(
    field: FieldModel,
    protocol: Protocol,
    inherited: Access,
    cursor: u64,
)
    requires
        elaborate(field, protocol, inherited, cursor).result is Ok,
    ensures
        laid_out(elaborate(field, protocol, inherited, cursor).field, protocol),
    decreases field,
{
    let access = match field.access {
        Some(access) => access,
        None => inherited,
    };
    match field.field_type {
        FieldType::Group => match field.contains {
            None => {},
            Some(Children::One(child)) => {
                law_elaborated_tree_is_laid_out(*child, protocol, access, cursor);
            },
            Some(Children::More(children)) => {
                let placed = elaborate_all(children, protocol, access, cursor).fields;
                lemma_walk_keeps_length(children, protocol, access, cursor);
                assert forall|at: int| 0 <= at < placed.len() implies laid_out(
                    #[trigger] placed[at],
                    protocol,
                ) by {
                    lemma_walk_by_steps(children, at, protocol, access, cursor);
                    law_elaborated_tree_is_laid_out(
                        children[at],
                        protocol,
                        access,
                        elaborate_all(children.take(at), protocol, access, cursor).cursor,
                    );
                }
            },
        },
        _ => {},
    }
}

/// An elaborated tree is a fixed point: elaborating it again, from any
/// cursor and under any inherited permission, goes through and changes
/// nothing, since every placed field now has its address and its permission.
pub proof fn law_elaboration_is_stable(
    field: FieldModel,
    protocol: Protocol,
    inherited: Access,
    cursor: u64,
    inherited_again: Access,
    cursor_again: u64,
)
    requires
        elaborate(field, protocol, inherited, cursor).result is Ok,
    ensures
        ({
            let once = elaborate(field, protocol, inherited, cursor);
            let twice = elaborate(once.field, protocol, inherited_again, cursor_again);
            &&& twice.result is Ok
            &&& twice.field == once.field
        }),
    decreases field,
{
    let access = match field.access {
        Some(access) => access,
        None => inherited,
    };
    let access_again = match field.access {
        Some(access) => access,
        None => inherited_again,
    };
    match field.field_type {
        FieldType::Group => match field.contains {
            None => {},
            Some(Children::One(child)) => {
                law_elaboration_is_stable(
                    *child,
                    protocol,
                    access,
                    cursor,
                    access_again,
                    cursor_again,
                );
            },
            Some(Children::More(children)) => {
                lemma_walk_is_stable(
                    children,
                    protocol,
                    access,
                    cursor,
                    access_again,
                    cursor_again,
                );
            },
        },
        _ => {},
    }
}

/// The walk over an elaborated sequence goes through and changes nothing.
pub proof fn lemma_walk_is_stable(
    fields: Seq<FieldModel>,
    protocol: Protocol,
    inherited: Access,
    cursor: u64,
    inherited_again: Access,
    cursor_again: u64,
)
    requires
        elaborate_all(fields, protocol, inherited, cursor).result is Ok,
    ensures
        ({
            let once = elaborate_all(fields, protocol, inherited, cursor);
            let twice = elaborate_all(once.fields, protocol, inherited_again, cursor_again);
            &&& twice.result is Ok
            &&& twice.fields == once.fields
        }),
    decreases fields,
{
    if fields.len() > 0 {
        let once = elaborate_all(fields, protocol, inherited, cursor);
        let before = elaborate_all(fields.drop_last(), protocol, inherited, cursor);
        let last = elaborate(fields.last(), protocol, inherited, before.cursor);
        lemma_walk_is_stable(
            fields.drop_last(),
            protocol,
            inherited,
            cursor,
            inherited_again,
            cursor_again,
        );
        let before_again = elaborate_all(before.fields, protocol, inherited_again, cursor_again);
        law_elaboration_is_stable(
            fields.last(),
            protocol,
            inherited,
            before.cursor,
            inherited_again,
            before_again.cursor,
        );
        assert(once.fields.drop_last() =~= before.fields);
        assert(once.fields.last() == last.field);
        let twice = elaborate_all(once.fields, protocol, inherited_again, cursor_again);
        assert(twice.fields =~= once.fields);
    }
}

} // verus!
