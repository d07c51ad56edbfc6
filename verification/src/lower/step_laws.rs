//! By how much `++` and `--` change what they are applied to.

use crate::error::Location;
use crate::hir::{Type, TypeKind};
use crate::ir::Op;
use crate::lower::expr_model::{scalar_step_spec, stepped};
use crate::lower::machine::bytes_of;
use crate::lower::state::{type_of_value, Lowering};
use crate::type_laws::scalar_bytes;
use vstd::prelude::*;

verus! {

/// A pointer is moved by one object of the type that it points to, and any
/// other scalar by one; each at its own width.
pub proof fn a_step_is_one_object_or_one(ctype: Type, location: Location)
    requires
        scalar_bytes(ctype) is Some,
    ensures
        scalar_step_spec(ctype, location) matches Ok((ty, step)) ==> {
            &&& bytes_of(ty) == scalar_bytes(ctype)->0
            &&& ctype.kind matches TypeKind::Pointer(pointee) ==> pointee.size == Ok::<u64, String>(
                step as u64,
            )
            &&& !(ctype.kind is Pointer) ==> step == 1
        },
        !(ctype.kind is Pointer) ==> scalar_step_spec(ctype, location) is Ok,
        (ctype.kind matches TypeKind::Pointer(pointee) ==> (pointee.size is Ok
            && pointee.size->Ok_0 <= i64::MAX ==> scalar_step_spec(ctype, location) is Ok)),
{
}

/// A floating-point number is changed by the number one of its precision:
/// added for `++`, taken away for `--`.
pub proof fn a_float_changes_by_one(s: Lowering, before: usize, step: i64, increment: bool)
    requires
        type_of_value(s, before).floating(),
        s.ops.len() + 2 <= usize::MAX,
    ensures
        ({
            let (after, value) = stepped(s, before, step, increment);
            let at = s.ops.len() as int;
            &&& after.ops.len() == at + 2
            &&& value == at + 1
            &&& type_of_value(s, before) is F32 ==> after.ops[at] == (Op::F32Const {
                bits: 0x3f80_0000,
            })
            &&& type_of_value(s, before) is F64 ==> after.ops[at] == (Op::F64Const {
                bits: 0x3ff0_0000_0000_0000,
            })
            &&& after.ops[at + 1] matches Op::Binary { inst, ty: _, left, right } && {
                &&& left == before
                &&& right == at
                &&& increment <==> inst is Fadd
                &&& !increment <==> inst is Fsub
            }
        }),
{
}

} // verus!
