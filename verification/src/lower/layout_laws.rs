//! Where the parts of objects lie, whoever asks: an access, an initializer of
//! a local or of an object with static storage, or a link-time address.

use crate::error::{ErrorView, Location};
use crate::hir::{Field, Initializer, Type, TypeKind};
use crate::lower::expr_model::{access_offset, field_offset_from};
use crate::lower::init_model::{aggregate_at_spec, elements_spec, item_spec, members_spec, Done};
use crate::lower::state::Lowering;
use crate::types::{aligned, array_length, member_offset_from, member_offset_spec};
use crate::unit::data::{
    global_elements_spec, global_members_spec, global_spec, padded, ObjectState, References, Wrote,
};
use vstd::arithmetic::div_mod::{lemma_fundamental_div_mod, lemma_mod_multiples_basic};
use vstd::prelude::*;

verus! {

/// The end of the member before `index`, given where the members start.
pub open spec fn end_before(fields: Seq<Field>, starts: Seq<int>, index: int) -> int {
    if index <= 0 {
        0
    } else {
        starts[index - 1] + fields[index - 1].ctype.size->Ok_0
    }
}

/// Whether members that start at these offsets are laid out as C asks: each
/// starts at a multiple of its alignment, the first one that is not below the
/// end of the member before it.
pub open spec fn laid_out(fields: Seq<Field>, starts: Seq<int>) -> bool {
    &&& starts.len() == fields.len()
    &&& forall|i: int|
        0 <= i < fields.len() ==> {
            let ctype = (#[trigger] fields[i]).ctype;
            &&& ctype.size is Ok
            &&& ctype.align is Ok
            &&& ctype.align->Ok_0 > 0
            &&& starts[i] % (ctype.align->Ok_0 as int) == 0
            &&& end_before(fields, starts, i) <= starts[i]
            &&& starts[i] < end_before(fields, starts, i) + ctype.align->Ok_0
            &&& starts[i] + ctype.size->Ok_0 <= u64::MAX
        }
}

/// Whether the member at `index` is the first of its name.
pub open spec fn first_named(fields: Seq<Field>, index: int) -> bool {
    &&& 0 <= index < fields.len()
    &&& forall|i: int| 0 <= i < index ==> (#[trigger] fields[i]).id != fields[index].id
}

proof fn one_multiple(a: int, b: int, step: int)
    requires
        step > 0,
        a % step == 0,
        b % step == 0,
        -step < a - b < step,
    ensures
        a == b,
{
    lemma_fundamental_div_mod(a, step);
    lemma_fundamental_div_mod(b, step);
    let p = a / step;
    let q = b / step;
    assert(a - b == step * (p - q)) by (nonlinear_arith)
        requires
            a == step * p,
            b == step * q,
    ;
    assert(p == q) by (nonlinear_arith)
        requires
            -step < step * (p - q) < step,
            step > 0,
    ;
}

proof fn rounding_up(offset: int, step: int)
    requires
        step > 0,
        offset >= 0,
    ensures
        offset % step != 0 ==> (offset + step - offset % step) % step == 0,
        0 <= offset % step < step,
{
    lemma_fundamental_div_mod(offset, step);
    let q = offset / step;
    lemma_mod_multiples_basic(q + 1, step);
    assert(offset + step - offset % step == (q + 1) * step) by (nonlinear_arith)
        requires
            offset == step * q + offset % step,
    ;
}

proof fn rounded_to_the_start(fields: Seq<Field>, starts: Seq<int>, index: int, offset: u64)
    requires
        laid_out(fields, starts),
        0 <= index < fields.len(),
        offset == end_before(fields, starts, index),
    ensures
        aligned(offset, fields[index].ctype.align->Ok_0) == starts[index],
{
    let align = fields[index].ctype.align->Ok_0;
    rounding_up(offset as int, align as int);
    let up = if offset % align == 0 {
        offset as int
    } else {
        offset + align - offset % align
    };
    one_multiple(up, starts[index], align as int);
}

proof fn accessed_at_the_start(
    fields: Seq<Field>,
    starts: Seq<int>,
    member: int,
    index: nat,
    offset: u64,
    location: Location,
)
    requires
        laid_out(fields, starts),
        first_named(fields, member),
        index <= member,
        offset == end_before(fields, starts, index as int),
    ensures
        field_offset_from(fields, index, offset, fields[member].id, location) == Ok::<
            u64,
            ErrorView,
        >(starts[member] as u64),
        member_offset_from(fields, index, offset, fields[member].id, location) == Ok::<
            u64,
            ErrorView,
        >(starts[member] as u64),
    decreases member - index,
{
    rounded_to_the_start(fields, starts, index as int, offset);
    if index < member {
        let end = (starts[index as int] + fields[index as int].ctype.size->Ok_0) as u64;
        assert(fields[index as int].id != fields[member].id);
        accessed_at_the_start(fields, starts, member, index + 1, end, location);
    }
}

/// A member of a struct is accessed where C lays it out: at the first multiple
/// of its alignment from the end of the member before it on. Its link-time
/// address is the same.
pub proof fn a_member_lies_where_it_is_laid_out(
    ctype: Type,
    fields: Vec<Field>,
    starts: Seq<int>,
    index: int,
    location: Location,
)
    requires
        ctype.kind == TypeKind::Struct(fields),
        laid_out(fields@, starts),
        first_named(fields@, index),
    ensures
        access_offset(ctype, fields@[index].id, location) == Ok::<u64, ErrorView>(
            starts[index] as u64,
        ),
        member_offset_spec(ctype, fields@[index].id, location) == Ok::<u64, ErrorView>(
            starts[index] as u64,
        ),
        0 <= starts[index] <= u64::MAX,
{
    accessed_at_the_start(fields@, starts, index, 0, 0, location);
    starts_are_offsets(fields@, starts, index);
}

proof fn starts_are_offsets(fields: Seq<Field>, starts: Seq<int>, index: int)
    requires
        laid_out(fields, starts),
        0 <= index < fields.len(),
    ensures
        0 <= starts[index],
    decreases index,
{
    let field = fields[index];
    if index > 0 {
        let before = fields[index - 1];
        starts_are_offsets(fields, starts, index - 1);
    }
}

/// The members of a union all lie at its start.
pub proof fn the_members_of_a_union_lie_at_its_start(ctype: Type, member: u32, location: Location)
    requires
        ctype.kind is Union,
    ensures
        access_offset(ctype, member, location) == Ok::<u64, ErrorView>(0),
        member_offset_spec(ctype, member, location) == Ok::<u64, ErrorView>(0),
{
}

/// What an initializer does after another one that succeeded.
pub open spec fn and_then_item(
    done: Done,
    slot: usize,
    ctype: Type,
    item: Initializer,
    offset: u64,
    location: Location,
    message: Seq<char>,
) -> Done {
    match done {
        (s, Err(error)) => (s, Err(error)),
        (s, Ok(_)) => item_spec(s, slot, ctype, item, offset, location, message),
    }
}

proof fn last_member_is_placed(
    s: Lowering,
    slot: usize,
    fields: Seq<Field>,
    starts: Seq<int>,
    shorter: Seq<Initializer>,
    longer: Seq<Initializer>,
    index: nat,
    offset: u64,
    base: u64,
    location: Location,
)
    requires
        laid_out(fields, starts),
        shorter.len() < fields.len(),
        longer.len() == shorter.len() + 1,
        forall|i: int| 0 <= i < shorter.len() ==> #[trigger] longer[i] == shorter[i],
        index <= shorter.len(),
        offset == end_before(fields, starts, index as int),
        base + starts[shorter.len() as int] <= u64::MAX,
    ensures
        members_spec(s, slot, fields, longer, index, offset, base, location) == and_then_item(
            members_spec(s, slot, fields, shorter, index, offset, base, location),
            slot,
            fields[shorter.len() as int].ctype,
            longer.last(),
            (base + starts[shorter.len() as int]) as u64,
            location,
            "unsupported struct initializer element"@,
        ),
    decreases shorter.len() - index,
{
    rounded_to_the_start(fields, starts, index as int, offset);
    starts_are_offsets(fields, starts, index as int);
    let ctype = fields[index as int].ctype;
    let start = starts[index as int] as u64;
    let end = (start + ctype.size->Ok_0) as u64;
    let message = "unsupported struct initializer element"@;
    if index < shorter.len() {
        if let (s1, Ok(_)) = item_spec(
            s,
            slot,
            ctype,
            shorter[index as int],
            base.wrapping_add(start),
            location,
            message,
        ) {
            last_member_is_placed(
                s1,
                slot,
                fields,
                starts,
                shorter,
                longer,
                index + 1,
                end,
                base,
                location,
            );
        }
    } else {
        reveal_with_fuel(members_spec, 2);
        let at = (base + start) as u64;
        assert(base.wrapping_add(start) == at);
        let done = item_spec(s, slot, ctype, longer.last(), at, location, message);
        if let (s1, Ok(nothing)) = done {
            assert(nothing == ());
        }
    }
}

/// A local struct's initializer places each item at the member's own offset:
/// a list with one more item does what the list without it does, and then
/// initializes the next member where an access finds it.
pub proof fn a_local_list_places_each_member(
    s: Lowering,
    slot: usize,
    ctype: Type,
    fields: Vec<Field>,
    starts: Seq<int>,
    shorter: Vec<Initializer>,
    longer: Vec<Initializer>,
    base: u64,
    location: Location,
)
    requires
        ctype.kind == TypeKind::Struct(fields),
        laid_out(fields@, starts),
        shorter@.len() < fields@.len(),
        longer@.drop_last() == shorter@,
        longer@.len() == shorter@.len() + 1,
        base + starts[shorter@.len() as int] <= u64::MAX,
    ensures
        aggregate_at_spec(
            s,
            slot,
            ctype,
            None,
            Initializer::InitializerList(longer),
            base,
            location,
        ) == and_then_item(
            aggregate_at_spec(
                s,
                slot,
                ctype,
                None,
                Initializer::InitializerList(shorter),
                base,
                location,
            ),
            slot,
            fields@[shorter@.len() as int].ctype,
            longer@.last(),
            (base + starts[shorter@.len() as int]) as u64,
            location,
            "unsupported struct initializer element"@,
        ),
{
    assert forall|i: int| 0 <= i < shorter@.len() implies #[trigger] longer@[i] == shorter@[i] by {
        assert(longer@.drop_last()[i] == longer@[i]);
    }
    last_member_is_placed(
        s,
        slot,
        fields@,
        starts,
        shorter@,
        longer@,
        0,
        0,
        base,
        location,
    );
}

proof fn last_element_is_placed(
    s: Lowering,
    slot: usize,
    element: Type,
    size: u64,
    shorter: Seq<Initializer>,
    longer: Seq<Initializer>,
    index: nat,
    base: u64,
    location: Location,
)
    requires
        longer.len() == shorter.len() + 1,
        longer.len() <= u64::MAX,
        forall|i: int| 0 <= i < shorter.len() ==> #[trigger] longer[i] == shorter[i],
        index <= shorter.len(),
        base + shorter.len() * size <= u64::MAX,
    ensures
        elements_spec(s, slot, element, size, longer, index, base, location) == and_then_item(
            elements_spec(s, slot, element, size, shorter, index, base, location),
            slot,
            element,
            longer.last(),
            (base + shorter.len() * size) as u64,
            location,
            "unsupported array initializer element"@,
        ),
    decreases shorter.len() - index,
{
    let message = "unsupported array initializer element"@;
    assert(index * size <= shorter.len() * size) by (nonlinear_arith)
        requires
            index <= shorter.len(),
    ;
    assert(index * size >= 0) by (nonlinear_arith);
    let offset = (base + index * size) as u64;
    assert((index as u64).wrapping_mul(size) == index * size);
    assert(base.wrapping_add((index as u64).wrapping_mul(size)) == offset);
    if index < shorter.len() {
        if let (s1, Ok(_)) = item_spec(
            s,
            slot,
            element,
            shorter[index as int],
            offset,
            location,
            message,
        ) {
            last_element_is_placed(
                s1,
                slot,
                element,
                size,
                shorter,
                longer,
                index + 1,
                base,
                location,
            );
        }
    } else {
        reveal_with_fuel(elements_spec, 2);
        let done = item_spec(s, slot, element, longer.last(), offset, location, message);
        if let (s1, Ok(nothing)) = done {
            assert(nothing == ());
        }
    }
}

/// A local array's initializer places its items one size of an element apart:
/// a list with one more item does what the list without it does, and then
/// initializes the next element.
pub proof fn a_local_list_places_each_element(
    s: Lowering,
    slot: usize,
    ctype: Type,
    element: Type,
    size: u64,
    length: Option<u64>,
    shorter: Vec<Initializer>,
    longer: Vec<Initializer>,
    base: u64,
    location: Location,
)
    requires
        ctype.kind matches TypeKind::Array(of, _) && *of == element,
        element.size == Ok::<u64, String>(size),
        array_length(ctype, length) is Some,
        longer@.len() <= array_length(ctype, length)->0,
        longer@.drop_last() == shorter@,
        longer@.len() == shorter@.len() + 1,
        base + shorter@.len() * size <= u64::MAX,
    ensures
        aggregate_at_spec(
            s,
            slot,
            ctype,
            length,
            Initializer::InitializerList(longer),
            base,
            location,
        ) == and_then_item(
            aggregate_at_spec(
                s,
                slot,
                ctype,
                length,
                Initializer::InitializerList(shorter),
                base,
                location,
            ),
            slot,
            element,
            longer@.last(),
            (base + shorter@.len() * size) as u64,
            location,
            "unsupported array initializer element"@,
        ),
{
    assert forall|i: int| 0 <= i < shorter@.len() implies #[trigger] longer@[i] == shorter@[i] by {
        assert(longer@.drop_last()[i] == longer@[i]);
    }
    last_element_is_placed(s, slot, element, size, shorter@, longer@, 0, base, location);
}

/// What writing an item does after other items were written.
pub open spec fn and_then_written(
    wrote: Wrote,
    references: References,
    offset: usize,
    ctype: Type,
    item: Initializer,
    location: Location,
) -> Wrote {
    match wrote {
        (object, Err(error)) => (object, Err(error)),
        (object, Ok(_)) => global_spec(object, references, offset, ctype, None, item, location),
    }
}

proof fn padded_to_the_start(fields: Seq<Field>, starts: Seq<int>, index: int, offset: usize)
    requires
        laid_out(fields, starts),
        0 <= index < fields.len(),
        starts[index] <= usize::MAX,
        fields[index].ctype.align->Ok_0 <= usize::MAX,
        offset == end_before(fields, starts, index),
    ensures
        padded(offset, fields[index].ctype.align->Ok_0 as usize) == starts[index],
{
    let align = fields[index].ctype.align->Ok_0;
    rounding_up(offset as int, align as int);
    let up = if offset % (align as usize) == 0 {
        offset as int
    } else {
        offset + align - offset % (align as usize)
    };
    one_multiple(up, starts[index], align as int);
}

/// Whether the host can hold the members and what is before them.
pub open spec fn host_can_hold(fields: Seq<Field>, starts: Seq<int>, base: usize) -> bool {
    forall|i: int|
        0 <= i < fields.len() ==> {
            &&& (#[trigger] fields[i]).ctype.align->Ok_0 <= usize::MAX
            &&& fields[i].ctype.size->Ok_0 <= usize::MAX
            &&& base + starts[i] + fields[i].ctype.size->Ok_0 <= usize::MAX
        }
}

proof fn last_member_is_written(
    object: ObjectState,
    references: References,
    base: usize,
    fields: Seq<Field>,
    starts: Seq<int>,
    shorter: Seq<Initializer>,
    longer: Seq<Initializer>,
    index: nat,
    offset: usize,
    location: Location,
)
    requires
        laid_out(fields, starts),
        host_can_hold(fields, starts, base),
        shorter.len() < fields.len(),
        longer.len() == shorter.len() + 1,
        forall|i: int| 0 <= i < shorter.len() ==> #[trigger] longer[i] == shorter[i],
        index <= shorter.len(),
        offset == end_before(fields, starts, index as int),
    ensures
        global_members_spec(
            object,
            references,
            base,
            fields,
            longer,
            index,
            offset,
            location,
        ) == and_then_written(
            global_members_spec(
                object,
                references,
                base,
                fields,
                shorter,
                index,
                offset,
                location,
            ),
            references,
            (base + starts[shorter.len() as int]) as usize,
            fields[shorter.len() as int].ctype,
            longer.last(),
            location,
        ),
    decreases shorter.len() - index,
{
    starts_are_offsets(fields, starts, index as int);
    let ctype = fields[index as int].ctype;
    padded_to_the_start(fields, starts, index as int, offset);
    let at = (base + starts[index as int]) as usize;
    let end = (starts[index as int] + ctype.size->Ok_0) as usize;
    if index < shorter.len() {
        if let (next, Ok(_)) = global_spec(
            object,
            references,
            at,
            ctype,
            None,
            shorter[index as int],
            location,
        ) {
            last_member_is_written(
                next,
                references,
                base,
                fields,
                starts,
                shorter,
                longer,
                index + 1,
                end,
                location,
            );
        }
    } else {
        reveal_with_fuel(global_members_spec, 2);
        let wrote = global_spec(object, references, at, ctype, None, longer.last(), location);
        if let (next, Ok(nothing)) = wrote {
            assert(nothing == ());
        }
    }
}

/// The initializer of a struct with static storage places each item at the
/// member's own offset, as an access and a link-time address find it.
pub proof fn a_global_list_places_each_member(
    object: ObjectState,
    references: References,
    base: usize,
    ctype: Type,
    fields: Vec<Field>,
    starts: Seq<int>,
    shorter: Vec<Initializer>,
    longer: Vec<Initializer>,
    location: Location,
)
    requires
        ctype.kind == TypeKind::Struct(fields),
        !ctype.scalar,
        laid_out(fields@, starts),
        host_can_hold(fields@, starts, base),
        shorter@.len() < fields@.len(),
        longer@.drop_last() == shorter@,
        longer@.len() == shorter@.len() + 1,
    ensures
        global_spec(
            object,
            references,
            base,
            ctype,
            None,
            Initializer::InitializerList(longer),
            location,
        ) == and_then_written(
            global_spec(
                object,
                references,
                base,
                ctype,
                None,
                Initializer::InitializerList(shorter),
                location,
            ),
            references,
            (base + starts[shorter@.len() as int]) as usize,
            fields@[shorter@.len() as int].ctype,
            longer@.last(),
            location,
        ),
{
    assert forall|i: int| 0 <= i < shorter@.len() implies #[trigger] longer@[i] == shorter@[i] by {
        assert(longer@.drop_last()[i] == longer@[i]);
    }
    last_member_is_written(
        object,
        references,
        base,
        fields@,
        starts,
        shorter@,
        longer@,
        0,
        0,
        location,
    );
}

proof fn last_element_is_written(
    object: ObjectState,
    references: References,
    base: usize,
    element: Type,
    size: usize,
    shorter: Seq<Initializer>,
    longer: Seq<Initializer>,
    index: nat,
    location: Location,
)
    requires
        longer.len() == shorter.len() + 1,
        forall|i: int| 0 <= i < shorter.len() ==> #[trigger] longer[i] == shorter[i],
        index <= shorter.len(),
        base + shorter.len() * size <= usize::MAX,
    ensures
        global_elements_spec(
            object,
            references,
            base,
            element,
            size,
            longer,
            index,
            location,
        ) == and_then_written(
            global_elements_spec(
                object,
                references,
                base,
                element,
                size,
                shorter,
                index,
                location,
            ),
            references,
            (base + shorter.len() * size) as usize,
            element,
            longer.last(),
            location,
        ),
    decreases shorter.len() - index,
{
    assert(index * size <= shorter.len() * size) by (nonlinear_arith)
        requires
            index <= shorter.len(),
    ;
    assert(index * size >= 0) by (nonlinear_arith);
    if index < shorter.len() {
        if let (next, Ok(_)) = global_spec(
            object,
            references,
            (base + index * size) as usize,
            element,
            None,
            shorter[index as int],
            location,
        ) {
            last_element_is_written(
                next,
                references,
                base,
                element,
                size,
                shorter,
                longer,
                index + 1,
                location,
            );
        }
    } else {
        reveal_with_fuel(global_elements_spec, 2);
        let at = (base + index * size) as usize;
        let wrote = global_spec(object, references, at, element, None, longer.last(), location);
        if let (next, Ok(nothing)) = wrote {
            assert(nothing == ());
        }
    }
}

/// The initializer of an array with static storage places its items one size
/// of an element apart.
pub proof fn a_global_list_places_each_element(
    object: ObjectState,
    references: References,
    base: usize,
    ctype: Type,
    element: Type,
    size: u64,
    length: Option<u64>,
    shorter: Vec<Initializer>,
    longer: Vec<Initializer>,
    location: Location,
)
    requires
        ctype.kind matches TypeKind::Array(of, _) && *of == element,
        !ctype.scalar,
        element.size == Ok::<u64, String>(size),
        size <= usize::MAX,
        array_length(ctype, length) is Some,
        longer@.len() <= array_length(ctype, length)->0,
        longer@.drop_last() == shorter@,
        longer@.len() == shorter@.len() + 1,
        base + shorter@.len() * size <= usize::MAX,
    ensures
        global_spec(
            object,
            references,
            base,
            ctype,
            length,
            Initializer::InitializerList(longer),
            location,
        ) == and_then_written(
            global_spec(
                object,
                references,
                base,
                ctype,
                length,
                Initializer::InitializerList(shorter),
                location,
            ),
            references,
            (base + shorter@.len() * size) as usize,
            element,
            longer@.last(),
            location,
        ),
{
    assert forall|i: int| 0 <= i < shorter@.len() implies #[trigger] longer@[i] == shorter@[i] by {
        assert(longer@.drop_last()[i] == longer@[i]);
    }
    last_element_is_written(
        object,
        references,
        base,
        element,
        size as usize,
        shorter@,
        longer@,
        0,
        location,
    );
}

} // verus!
