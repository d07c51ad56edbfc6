//! What room objects on the stack get.

use crate::error::Location;
use crate::hir::Type;
use crate::ir::Op;
use crate::lower::init_model::stack_local_spec;
use crate::lower::state::{aggregate_slot_spec, align_shift_of, Lowering};
use vstd::prelude::*;
use vstd::std_specs::bits::axiom_u64_trailing_zeros;

verus! {

/// Whether two to the `shift` is the largest power of two that divides the
/// alignment.
pub open spec fn shifts_to(shift: u8, align: u64) -> bool {
    &&& shift < 64
    &&& (align >> (shift as u64)) << (shift as u64) == align
    &&& (align >> (shift as u64)) & 1 == 1
}

/// An alignment is two to its shift, and an odd factor where it has one.
pub proof fn an_alignment_is_its_shift(align: u64)
    requires
        align > 0,
    ensures
        shifts_to(align_shift_of(align), align),
{
    axiom_u64_trailing_zeros(align);
    let zeros = align_shift_of(align) as u64;
    assert((align >> zeros) << zeros == align) by (bit_vector)
        requires
            0 <= zeros < 64,
            align << ((64 - zeros) as u64) == 0 || zeros == 0,
    ;
}

/// A slot for an object has as many bytes as the object and its alignment, and
/// its address is the address of the slot.
pub proof fn a_slot_has_room_for_its_object(s: Lowering, ctype: Type, location: Location)
    requires
        aggregate_slot_spec(s, ctype, location).1 is Ok,
        s.ops.len() + 2 <= usize::MAX,
        ctype.align matches Ok(align) && align > 0,
    ensures
        ({
            let (after, made) = aggregate_slot_spec(s, ctype, location);
            let (slot, address) = made->Ok_0;
            &&& slot == s.ops.len()
            &&& after.ops[slot as int] matches Op::CreateStackSlot { size, align_shift } && {
                &&& ctype.size == Ok::<u64, String>(size as u64)
                &&& shifts_to(align_shift, ctype.align->Ok_0)
            }
            &&& after.ops[address as int] == Op::StackAddr { slot }
        }),
{
    an_alignment_is_its_shift(ctype.align->Ok_0);
}

/// A declared object that is not an array without a bound gets a slot with as
/// many bytes as its type and its alignment.
pub proof fn a_declared_object_has_room(s: Lowering, key: u32, ctype: Type, location: Location)
    requires
        stack_local_spec(s, key, ctype, None, location).1 is Ok,
        s.ops.len() + 1 <= usize::MAX,
        ctype.align matches Ok(align) && align > 0,
    ensures
        ({
            let after = stack_local_spec(s, key, ctype, None, location).0;
            &&& after.stack_locals.contains_key(key)
            &&& after.stack_locals[key] == s.ops.len()
            &&& after.ops[s.ops.len() as int] matches Op::CreateStackSlot { size, align_shift } && {
                &&& ctype.size == Ok::<u64, String>(size as u64)
                &&& shifts_to(align_shift, ctype.align->Ok_0)
            }
        }),
{
    an_alignment_is_its_shift(ctype.align->Ok_0);
}

} // verus!
