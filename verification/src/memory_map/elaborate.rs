//! Elaboration: one walk over the field tree, in declaration order, that gives
//! every leaf field an address and an access permission and checks its default
//! value.
//!
//! The walk carries a cursor, the address at which the next field without an
//! address of its own is placed, and the access permission that a field
//! without one inherits. What the walk does is stated as a function on the
//! model of the tree, [`elaborate`]; the methods of [`Field`] compute it in
//! place.

use vstd::pervasive::unreached;
use vstd::prelude::*;

use crate::memory_map::laws::{laid_out, law_elaborated_tree_is_laid_out};
use crate::memory_map::layout::{fixed_width, footprint_of_bits, numeric_footprint};
use crate::memory_map::schema::{
    model, models, Access, Children, Field, FieldModel, FieldType, MemoryMap, OneOrMoreField,
    Protocol,
};
use crate::memory_map::validate::{
    check_sfixed, check_signed, check_string, check_ufixed, check_unsigned, sfixed_verdict,
    signed_verdict, string_verdict, ufixed_verdict, unsigned_verdict, Verdict,
};

verus! {

/// Why an elaboration stopped.
#[derive(Clone, Debug, PartialEq)]
pub enum ElaborationError {
    /// A group has nothing under `contains`.
    MissingContains { field: String },
    /// A default value is of another family than the type of its field.
    ValueTypeMismatch { field: String },
    /// A default value does not fit the type of its field.
    ValueOutOfRange { field: String },
    /// A field would end beyond the highest address of the protocol.
    AddressOverflow { field: String, address: u64, footprint: u64, address_max: u64 },
}

/// What the walk over one field leaves: the field, the cursor, and whether it
/// went through.
pub struct Outcome {
    pub field: FieldModel,
    pub cursor: u64,
    pub result: Result<(), ElaborationError>,
}

/// What the walk over a sequence of fields leaves.
pub struct Outcomes {
    pub fields: Seq<FieldModel>,
    pub cursor: u64,
    pub result: Result<(), ElaborationError>,
}

/// The access permission of a field: its own, or the inherited one.
pub open spec fn resolved_access(own: Option<Access>, inherited: Access) -> Access {
    match own {
        Some(access) => access,
        None => inherited,
    }
}

/// The address of a field: its own, or the cursor.
pub open spec fn resolved_address(own: Option<u64>, cursor: u64) -> u64 {
    match own {
        Some(address) => address,
        None => cursor,
    }
}

/// A field type whose fields are placed in the address space.
pub open spec fn is_placed(field_type: FieldType) -> bool {
    match field_type {
        FieldType::String(_) => true,
        FieldType::Unsigned(_) => true,
        FieldType::Signed(_) => true,
        FieldType::UFixed { .. } => true,
        FieldType::SFixed { .. } => true,
        _ => false,
    }
}

/// The bytes that a field of a placed type occupies. A string occupies its
/// length; a number occupies its bits in whole bytes, and no less than
/// `data_min` bytes.
pub open spec fn footprint(field_type: FieldType, data_min: u8) -> int {
    match field_type {
        FieldType::String(length) => length as int,
        FieldType::Unsigned(length) => numeric_footprint(length as int, data_min),
        FieldType::Signed(length) => numeric_footprint(length as int, data_min),
        FieldType::UFixed { high, low } => numeric_footprint(fixed_width(high, low), data_min),
        FieldType::SFixed { high, low } => numeric_footprint(fixed_width(high, low), data_min),
        _ => 0,
    }
}

/// What the check of the default value of a field of a placed type finds.
pub open spec fn verdict(field: FieldModel) -> Verdict {
    match field.field_type {
        FieldType::String(length) => string_verdict(field.value, length),
        FieldType::Unsigned(length) => unsigned_verdict(field.value, length),
        FieldType::Signed(length) => signed_verdict(field.value, length),
        FieldType::UFixed { high, low } => ufixed_verdict(field.value, high, low),
        FieldType::SFixed { .. } => sfixed_verdict(field.value),
        _ => Verdict::Accepted,
    }
}

/// The four steps on a leaf field, given what the check of its value found
/// and the bytes it occupies.
///
/// A value that was not accepted stops the walk and leaves the field as it
/// was. Else the field gets its access permission and its address. If it
/// would then end beyond `address_max`, the walk stops there and the cursor
/// stays; else the cursor moves to the end of the field.
pub open spec fn place(
    field: FieldModel,
    address_max: u64,
    inherited: Access,
    cursor: u64,
    verdict: Verdict,
    footprint: int,
) -> Outcome {
    match verdict {
        Verdict::Mismatch => Outcome {
            field,
            cursor,
            result: Err(ElaborationError::ValueTypeMismatch { field: field.name }),
        },
        Verdict::OutOfRange => Outcome {
            field,
            cursor,
            result: Err(ElaborationError::ValueOutOfRange { field: field.name }),
        },
        Verdict::Accepted => {
            let address = resolved_address(field.address, cursor);
            let placed = FieldModel {
                access: Some(resolved_access(field.access, inherited)),
                address: Some(address),
                ..field
            };
            if address + footprint > address_max {
                Outcome {
                    field: placed,
                    cursor,
                    result: Err(
                        ElaborationError::AddressOverflow {
                            field: field.name,
                            address,
                            footprint: footprint as u64,
                            address_max,
                        },
                    ),
                }
            } else {
                Outcome { field: placed, cursor: (address + footprint) as u64, result: Ok(()) }
            }
        },
    }
}

/// The walk over one field.
///
/// A group hands the cursor and its access permission down to what it
/// contains, and is itself given neither address nor permission. A field of a
/// placed type goes through the four steps of [`place`]. Enumerations and
/// bitfields are passed over: they are neither placed nor checked.
pub open spec fn elaborate(
    field: FieldModel,
    protocol: Protocol,
    inherited: Access,
    cursor: u64,
) -> Outcome
    decreases field,
{
    match field.field_type {
        FieldType::Group => match field.contains {
            None => Outcome {
                field,
                cursor,
                result: Err(ElaborationError::MissingContains { field: field.name }),
            },
            Some(Children::One(child)) => {
                let inner = elaborate(
                    *child,
                    protocol,
                    resolved_access(field.access, inherited),
                    cursor,
                );
                Outcome {
                    field: FieldModel {
                        contains: Some(Children::One(Box::new(inner.field))),
                        ..field
                    },
                    cursor: inner.cursor,
                    result: inner.result,
                }
            },
            Some(Children::More(children)) => {
                let inner = elaborate_all(
                    children,
                    protocol,
                    resolved_access(field.access, inherited),
                    cursor,
                );
                Outcome {
                    field: FieldModel { contains: Some(Children::More(inner.fields)), ..field },
                    cursor: inner.cursor,
                    result: inner.result,
                }
            },
        },
        FieldType::Enum { .. } => Outcome { field, cursor, result: Ok(()) },
        FieldType::Bitfield { .. } => Outcome { field, cursor, result: Ok(()) },
        _ => place(
            field,
            protocol.address_max,
            inherited,
            cursor,
            verdict(field),
            footprint(field.field_type, protocol.data_min),
        ),
    }
}

/// The walk over a sequence of fields, first to last. It stops at the first
/// field that fails; the fields after that one stay as they were.
pub open spec fn elaborate_all(
    fields: Seq<FieldModel>,
    protocol: Protocol,
    inherited: Access,
    cursor: u64,
) -> Outcomes
    decreases fields,
{
    if fields.len() == 0 {
        Outcomes { fields, cursor, result: Ok(()) }
    } else {
        let before = elaborate_all(fields.drop_last(), protocol, inherited, cursor);
        if before.result is Err {
            Outcomes {
                fields: before.fields.push(fields.last()),
                cursor: before.cursor,
                result: before.result,
            }
        } else {
            let last = elaborate(fields.last(), protocol, inherited, before.cursor);
            Outcomes {
                fields: before.fields.push(last.field),
                cursor: last.cursor,
                result: last.result,
            }
        }
    }
}

/// The fields of a group while the walk is at work on them: the first `done`
/// are elaborated, the others are as they were given, the walk has not
/// failed, and the cursor is where the first `done` left it.
pub open spec fn walked(
    list: Seq<Field>,
    given: Seq<Field>,
    done: int,
    protocol: Protocol,
    inherited: Access,
    start: u64,
    cursor: u64,
) -> bool {
    let so_far = elaborate_all(models(given).take(done), protocol, inherited, start);
    &&& list.len() == given.len()
    &&& so_far.result is Ok
    &&& so_far.cursor == cursor
    &&& so_far.fields.len() == done
    &&& forall|at: int| 0 <= at < done ==> model(#[trigger] list[at]) == so_far.fields[at]
    &&& forall|at: int| done <= at < list.len() ==> #[trigger] list[at] == given[at]
}

/// The walk over a sequence leaves as many fields as it was given.
pub proof fn lemma_walk_keeps_length(
    fields: Seq<FieldModel>,
    protocol: Protocol,
    inherited: Access,
    cursor: u64,
)
    ensures
        elaborate_all(fields, protocol, inherited, cursor).fields.len() == fields.len(),
    decreases fields.len(),
{
    if fields.len() > 0 {
        lemma_walk_keeps_length(fields.drop_last(), protocol, inherited, cursor);
    }
}

/// Once the walk over the first `count` fields of a sequence has failed, the
/// walk over the whole sequence fails in the same way, and the fields after
/// the first `count` stay as they were.
pub proof fn lemma_walk_stops(
    fields: Seq<FieldModel>,
    count: int,
    protocol: Protocol,
    inherited: Access,
    cursor: u64,
)
    requires
        0 <= count <= fields.len(),
        elaborate_all(fields.take(count), protocol, inherited, cursor).result is Err,
    ensures
        ({
            let stopped = elaborate_all(fields.take(count), protocol, inherited, cursor);
            let whole = elaborate_all(fields, protocol, inherited, cursor);
            &&& whole.fields == stopped.fields + fields.skip(count)
            &&& whole.cursor == stopped.cursor
            &&& whole.result == stopped.result
        }),
    decreases fields.len() - count,
{
    let stopped = elaborate_all(fields.take(count), protocol, inherited, cursor);
    if count == fields.len() {
        assert(fields.take(count) =~= fields);
        assert(stopped.fields + fields.skip(count) =~= stopped.fields);
    } else {
        let next = fields.take(count + 1);
        assert(next.drop_last() =~= fields.take(count));
        assert(next.last() == fields[count]);
        lemma_walk_stops(fields, count + 1, protocol, inherited, cursor);
        assert(stopped.fields.push(fields[count]) + fields.skip(count + 1) =~= stopped.fields
            + fields.skip(count));
    }
}

impl Field {
    /// Takes a leaf field through the four steps, given what the check of its
    /// value found and the bytes it occupies.
    pub fn place_leaf(
        &mut self,
        address_max: u64,
        parent_access: &Access,
        running_address: &mut u64,
        verdict: Verdict,
        footprint: u64,
    ) -> (result: Result<(), ElaborationError>)
        ensures
            ({
                let out = place(
                    old(self)@,
                    address_max,
                    *parent_access,
                    *old(running_address),
                    verdict,
                    footprint as int,
                );
                &&& final(self)@ == out.field
                &&& *final(running_address) == out.cursor
                &&& result == out.result
            }),
    {
        match verdict {
            Verdict::Mismatch => {
                return Err(ElaborationError::ValueTypeMismatch { field: self.name.clone() });
            },
            Verdict::OutOfRange => {
                return Err(ElaborationError::ValueOutOfRange { field: self.name.clone() });
            },
            Verdict::Accepted => {},
        }
        if self.access.is_none() {
            self.access = Some(*parent_access);
        }
        let address: u64 = match self.address {
            Some(address) => address,
            None => {
                self.address = Some(*running_address);
                *running_address
            },
        };
        match address.checked_add(footprint) {
            Some(end) => {
                if end <= address_max {
                    *running_address = end;
                    return Ok(());
                }
            },
            None => {},
        }
        Err(
            ElaborationError::AddressOverflow {
                field: self.name.clone(),
                address,
                footprint,
                address_max,
            },
        )
    }

    /// Elaborates a string field of `length` bytes.
    pub fn render_field_type_string(
        &mut self,
        length: &u64,
        protocol: &Protocol,
        parent_access: &Access,
        running_address: &mut u64,
    ) -> (result: Result<(), ElaborationError>)
        ensures
            ({
                let out = place(
                    old(self)@,
                    protocol.address_max,
                    *parent_access,
                    *old(running_address),
                    string_verdict(old(self).value, *length),
                    *length as int,
                );
                &&& final(self)@ == out.field
                &&& *final(running_address) == out.cursor
                &&& result == out.result
            }),
    {
        let verdict = check_string(&self.value, *length);
        self.place_leaf(protocol.address_max, parent_access, running_address, verdict, *length)
    }

    /// Elaborates an unsigned field of `length` bits.
    pub fn render_field_type_unsigned(
        &mut self,
        length: &u32,
        protocol: &Protocol,
        parent_access: &Access,
        running_address: &mut u64,
    ) -> (result: Result<(), ElaborationError>)
        ensures
            ({
                let out = place(
                    old(self)@,
                    protocol.address_max,
                    *parent_access,
                    *old(running_address),
                    unsigned_verdict(old(self).value, *length),
                    numeric_footprint(*length as int, protocol.data_min),
                );
                &&& final(self)@ == out.field
                &&& *final(running_address) == out.cursor
                &&& result == out.result
            }),
    {
        let verdict = check_unsigned(&self.value, *length);
        let bytes = footprint_of_bits(*length as i64, protocol.data_min);
        self.place_leaf(protocol.address_max, parent_access, running_address, verdict, bytes)
    }

    /// Elaborates a signed field of `length` bits.
    pub fn render_field_type_signed(
        &mut self,
        length: &u32,
        protocol: &Protocol,
        parent_access: &Access,
        running_address: &mut u64,
    ) -> (result: Result<(), ElaborationError>)
        ensures
            ({
                let out = place(
                    old(self)@,
                    protocol.address_max,
                    *parent_access,
                    *old(running_address),
                    signed_verdict(old(self).value, *length),
                    numeric_footprint(*length as int, protocol.data_min),
                );
                &&& final(self)@ == out.field
                &&& *final(running_address) == out.cursor
                &&& result == out.result
            }),
    {
        let verdict = check_signed(&self.value, *length);
        let bytes = footprint_of_bits(*length as i64, protocol.data_min);
        self.place_leaf(protocol.address_max, parent_access, running_address, verdict, bytes)
    }

    /// Elaborates an unsigned fixed-point field.
    pub fn render_field_type_ufixed(
        &mut self,
        high: &i32,
        low: &i32,
        protocol: &Protocol,
        parent_access: &Access,
        running_address: &mut u64,
    ) -> (result: Result<(), ElaborationError>)
        ensures
            ({
                let out = place(
                    old(self)@,
                    protocol.address_max,
                    *parent_access,
                    *old(running_address),
                    ufixed_verdict(old(self).value, *high, *low),
                    numeric_footprint(fixed_width(*high, *low), protocol.data_min),
                );
                &&& final(self)@ == out.field
                &&& *final(running_address) == out.cursor
                &&& result == out.result
            }),
    {
        let verdict = check_ufixed(&self.value, *high, *low);
        let width: i64 = *high as i64 - *low as i64 + 1;
        let bytes = footprint_of_bits(width, protocol.data_min);
        self.place_leaf(protocol.address_max, parent_access, running_address, verdict, bytes)
    }

    /// Elaborates a signed fixed-point field.
    pub fn render_field_type_sfixed(
        &mut self,
        high: &i32,
        low: &i32,
        protocol: &Protocol,
        parent_access: &Access,
        running_address: &mut u64,
    ) -> (result: Result<(), ElaborationError>)
        ensures
            ({
                let out = place(
                    old(self)@,
                    protocol.address_max,
                    *parent_access,
                    *old(running_address),
                    sfixed_verdict(old(self).value),
                    numeric_footprint(fixed_width(*high, *low), protocol.data_min),
                );
                &&& final(self)@ == out.field
                &&& *final(running_address) == out.cursor
                &&& result == out.result
            }),
    {
        let verdict = check_sfixed(&self.value);
        let width: i64 = *high as i64 - *low as i64 + 1;
        let bytes = footprint_of_bits(width, protocol.data_min);
        self.place_leaf(protocol.address_max, parent_access, running_address, verdict, bytes)
    }
}

impl Field {
    /// Elaborates the field and all that it contains, from the cursor
    /// `running_address` and under the access permission `parent_access`.
    pub fn render_recursive(
        &mut self,
        protocol: &Protocol,
        parent_access: &Access,
        running_address: &mut u64,
    ) -> (result: Result<(), ElaborationError>)
        ensures
            ({
                let out = elaborate(old(self)@, *protocol, *parent_access, *old(running_address));
                &&& final(self)@ == out.field
                &&& *final(running_address) == out.cursor
                &&& result == out.result
            }),
        decreases *old(self),
    {
        match &self.field_type {
            FieldType::Group => {},
            FieldType::String(length) => {
                let length: u64 = *length;
                return self.render_field_type_string(
                    &length,
                    protocol,
                    parent_access,
                    running_address,
                );
            },
            FieldType::Enum { .. } => {
                return Ok(());
            },
            FieldType::Bitfield { .. } => {
                return Ok(());
            },
            FieldType::Unsigned(length) => {
                let length: u32 = *length;
                return self.render_field_type_unsigned(
                    &length,
                    protocol,
                    parent_access,
                    running_address,
                );
            },
            FieldType::Signed(length) => {
                let length: u32 = *length;
                return self.render_field_type_signed(
                    &length,
                    protocol,
                    parent_access,
                    running_address,
                );
            },
            FieldType::UFixed { high, low } => {
                let high: i32 = *high;
                let low: i32 = *low;
                return self.render_field_type_ufixed(
                    &high,
                    &low,
                    protocol,
                    parent_access,
                    running_address,
                );
            },
            FieldType::SFixed { high, low } => {
                let high: i32 = *high;
                let low: i32 = *low;
                return self.render_field_type_sfixed(
                    &high,
                    &low,
                    protocol,
                    parent_access,
                    running_address,
                );
            },
        }
        let access: Access = match self.access {
            Some(access) => access,
            None => *parent_access,
        };
        let count: usize = match &self.contains {
            None => {
                return Err(ElaborationError::MissingContains { field: self.name.clone() });
            },
            Some(OneOrMoreField::One(_)) => {
                return match &mut self.contains {
                    Some(OneOrMoreField::One(child)) => child.render_recursive(
                        protocol,
                        &access,
                        running_address,
                    ),
                    _ => unreached(),
                };
            },
            Some(OneOrMoreField::More(children)) => children.len(),
        };
        let ghost given: Seq<Field> = old(self).contains->0->More_0@;
        let ghost start: u64 = *running_address;
        let mut done: usize = 0;
        proof {
            assert(models(given).take(0) =~= Seq::<FieldModel>::empty());
        }
        while done < count
            invariant
                done <= count == given.len(),
                start == *old(running_address),
                access == resolved_access(old(self).access, *parent_access),
                old(self).field_type == FieldType::Group,
                old(self).contains matches Some(OneOrMoreField::More(list)) && list@ == given,
                *self == (Field { contains: self.contains, ..*old(self) }),
                self.contains matches Some(OneOrMoreField::More(list)) && walked(
                    list@,
                    given,
                    done as int,
                    *protocol,
                    access,
                    start,
                    *running_address,
                ),
            decreases count - done,
        {
            proof {
                let whole = old(self).contains->0->More_0;
                assert(decreases_to!(*old(self) => whole));
                assert(decreases_to!(whole => whole[done as int]));
                let next = models(given).take(done + 1);
                assert(next.drop_last() =~= models(given).take(done as int));
                assert(next.last() == model(given[done as int]));
            }
            let result = match &mut self.contains {
                Some(OneOrMoreField::More(list)) => list[done].render_recursive(
                    protocol,
                    &access,
                    running_address,
                ),
                _ => unreached(),
            };
            if result.is_err() {
                proof {
                    lemma_walk_stops(models(given), done + 1, *protocol, access, start);
                    let whole = elaborate_all(models(given), *protocol, access, start);
                    assert(models(self.contains->0->More_0@) =~= whole.fields);
                }
                return result;
            }
            done = done + 1;
        }
        proof {
            assert(models(given).take(count as int) =~= models(given));
            let whole = elaborate_all(models(given), *protocol, access, start);
            assert(models(self.contains->0->More_0@) =~= whole.fields);
            assert(whole.result->Ok_0 == ());
        }
        Ok(())
    }

    /// Elaborates the tree of which the field is the root: the cursor starts
    /// at the address of the root, or at 0 if it has none, and the permission
    /// to inherit is that of the root, or read-only if it has none.
    pub fn render(&mut self, protocol: &Protocol) -> (result: Result<(), ElaborationError>)
        ensures
            ({
                let out = elaborate(
                    old(self)@,
                    *protocol,
                    resolved_access(old(self).access, Access::Read),
                    resolved_address(old(self).address, 0),
                );
                &&& final(self)@ == out.field
                &&& result == out.result
            }),
            result is Ok ==> laid_out(final(self)@, *protocol),
    {
        let access: Access = match self.access {
            Some(access) => access,
            None => Access::default(),
        };
        let mut running_address: u64 = match self.address {
            Some(address) => address,
            None => 0,
        };
        proof {
            if elaborate(self@, *protocol, access, running_address).result is Ok {
                law_elaborated_tree_is_laid_out(self@, *protocol, access, running_address);
            }
        }
        self.render_recursive(protocol, &access, &mut running_address)
    }
}

impl MemoryMap {
    /// Elaborates the field tree of the memory map under its protocol.
    pub fn elaborate(&mut self) -> (result: Result<(), ElaborationError>)
        ensures
            final(self).protocol == old(self).protocol,
            ({
                let out = elaborate(
                    old(self).field@,
                    old(self).protocol,
                    resolved_access(old(self).field.access, Access::Read),
                    resolved_address(old(self).field.address, 0),
                );
                &&& final(self).field@ == out.field
                &&& result == out.result
            }),
            result is Ok ==> laid_out(final(self).field@, old(self).protocol),
    {
        self.field.render(&self.protocol)
    }
}

} // verus!
