//! The fixed block of a message, a group entry or a composite: scalar fields side by side.

use crate::models::ByteOrder;
use crate::wire::buffer::in_bounds;
use crate::wire::error::{SbeError, SbeFault};
use crate::wire::message::apart;
use crate::wire::scalar::{
    lemma_other_field_untouched, lemma_scalar_round_trip, ScalarField, ScalarFieldView,
};
use vstd::prelude::*;

verus! {

/// The contents of a list of fields.
pub open spec fn field_views(fields: Seq<ScalarField>) -> Seq<ScalarFieldView> {
    fields.map_values(|f: ScalarField| f@)
}

/// The values as mathematical integers.
pub open spec fn value_views(values: Seq<i128>) -> Seq<int> {
    values.map_values(|v: i128| v as int)
}

/// No two of the fields overlap.
pub open spec fn pairwise_apart(fields: Seq<ScalarFieldView>) -> bool {
    forall|i: int, j: int| 0 <= i < j < fields.len() ==> apart(fields[i], fields[j])
}

/// Every value is one that the primitive of its field can hold.
pub open spec fn values_fit(fields: Seq<ScalarFieldView>, values: Seq<int>) -> bool {
    &&& fields.len() == values.len()
    &&& forall|i: int| 0 <= i < fields.len() ==> (#[trigger] fields[i]).primitive.holds(values[i])
}

/// Whether every value is one that the primitive of its field can hold.
pub fn block_fits(fields: &Vec<ScalarField>, values: &Vec<i128>) -> (r: bool)
    ensures
        r == values_fit(field_views(fields@), value_views(values@)),
{
    if fields.len() != values.len() {
        return false;
    }
    let ghost fs = field_views(fields@);
    let ghost vs = value_views(values@);
    let mut i: usize = 0;
    while i < fields.len()
        invariant
            i <= fields.len(),
            fields@.len() == values@.len(),
            fs == field_views(fields@),
            vs == value_views(values@),
            forall|j: int| 0 <= j < i ==> (#[trigger] fs[j]).primitive.holds(vs[j]),
        decreases fields.len() - i,
    {
        assert(fs[i as int] == fields@[i as int]@);
        assert(vs[i as int] == values@[i as int] as int);
        if !fields[i].primitive.contains(values[i]) {
            return false;
        }
        i = i + 1;
    }
    true
}

/// The buffer after the first `n` values have been written into their fields, one after
/// the other.  The first value that is refused decides the fault.
pub open spec fn block_stored(
    fields: Seq<ScalarFieldView>,
    data: Seq<u8>,
    order: ByteOrder,
    values: Seq<int>,
    n: nat,
) -> Result<Seq<u8>, SbeFault>
    decreases n,
{
    if n == 0 || n > fields.len() || n > values.len() {
        Ok(data)
    } else {
        match block_stored(fields, data, order, values, (n - 1) as nat) {
            Err(f) => Err(f),
            Ok(before) => fields[n - 1].encoded_required(before, order, values[n - 1]),
        }
    }
}

/// A fault among the first values is the fault of all.
pub proof fn lemma_block_stored_fault(
    fields: Seq<ScalarFieldView>,
    data: Seq<u8>,
    order: ByteOrder,
    values: Seq<int>,
    k: nat,
    n: nat,
)
    requires
        k <= n <= fields.len(),
        n <= values.len(),
        block_stored(fields, data, order, values, k) is Err,
    ensures
        block_stored(fields, data, order, values, n) == block_stored(fields, data, order, values, k),
    decreases n - k,
{
    if k < n {
        lemma_block_stored_fault(fields, data, order, values, k, (n - 1) as nat);
    }
}

/// Writes the values into their fields, one after the other.
pub fn encode_block(
    fields: &Vec<ScalarField>,
    data: &mut Vec<u8>,
    order: ByteOrder,
    values: &Vec<i128>,
) -> (r: Result<(), SbeError>)
    requires
        values_fit(field_views(fields@), value_views(values@)),
    ensures
        match r {
            Ok(()) => block_stored(
                field_views(fields@),
                old(data)@,
                order,
                value_views(values@),
                fields@.len(),
            ) == Ok::<Seq<u8>, SbeFault>(final(data)@),
            Err(e) => block_stored(
                field_views(fields@),
                old(data)@,
                order,
                value_views(values@),
                fields@.len(),
            ) == Err::<Seq<u8>, SbeFault>(e@),
        },
{
    let ghost before = data@;
    let ghost fs = field_views(fields@);
    let ghost vs = value_views(values@);
    let mut i: usize = 0;
    while i < fields.len()
        invariant
            i <= fields.len(),
            fields@.len() == values@.len(),
            fs == field_views(fields@),
            vs == value_views(values@),
            before == old(data)@,
            values_fit(fs, vs),
            block_stored(fs, before, order, vs, i as nat) == Ok::<Seq<u8>, SbeFault>(data@),
        decreases fields.len() - i,
    {
        proof {
            let next = (i + 1) as nat;
            assert((next - 1) as nat == i as nat);
            assert(fs[i as int] == fields@[i as int]@);
            assert(vs[i as int] == values@[i as int] as int);
            assert(fs[i as int].primitive.holds(vs[i as int]));
        }
        match fields[i].encode_required(data, order, values[i]) {
            Ok(()) => {},
            Err(e) => {
                proof {
                    lemma_block_stored_fault(fs, before, order, vs, i as nat + 1, fields@.len());
                }
                return Err(e);
            },
        }
        i = i + 1;
    }
    Ok(())
}

/// Reads the required fields, one after the other.
pub fn decode_block(fields: &Vec<ScalarField>, data: &[u8], order: ByteOrder) -> (r: Result<
    Vec<i128>,
    SbeError,
>)
    ensures
        match r {
            Ok(values) => values@.len() == fields@.len() && forall|i: int|
                0 <= i < fields@.len() ==> (#[trigger] fields@[i])@.decoded_required(data@, order)
                    == Ok::<int, SbeFault>(values@[i] as int),
            Err(e) => exists|i: int|
                0 <= i < fields@.len() && (#[trigger] fields@[i])@.decoded_required(data@, order)
                    == Err::<int, SbeFault>(e@) && forall|j: int|
                    0 <= j < i ==> (#[trigger] fields@[j])@.decoded_required(data@, order) is Ok,
        },
{
    let mut values: Vec<i128> = Vec::new();
    let mut i: usize = 0;
    while i < fields.len()
        invariant
            i <= fields.len(),
            values@.len() == i,
            forall|j: int|
                0 <= j < i ==> (#[trigger] fields@[j])@.decoded_required(data@, order) == Ok::<
                    int,
                    SbeFault,
                >(values@[j] as int),
        decreases fields.len() - i,
    {
        match fields[i].decode_required(data, order) {
            Ok(v) => {
                values.push(v);
            },
            Err(e) => {
                assert(fields@[i as int]@.decoded_required(data@, order) == Err::<int, SbeFault>(
                    e@,
                ));
                return Err(e);
            },
        }
        i = i + 1;
    }
    Ok(values)
}

/// Writing a block keeps the length of the buffer.
pub proof fn lemma_block_stored_len(
    fields: Seq<ScalarFieldView>,
    data: Seq<u8>,
    order: ByteOrder,
    values: Seq<int>,
    n: nat,
)
    requires
        values_fit(fields, values),
        block_stored(fields, data, order, values, n) is Ok,
    ensures
        block_stored(fields, data, order, values, n)->Ok_0.len() == data.len(),
    decreases n,
{
    if n > 0 && n <= fields.len() {
        lemma_block_stored_len(fields, data, order, values, (n - 1) as nat);
        let before = block_stored(fields, data, order, values, (n - 1) as nat)->Ok_0;
        lemma_scalar_round_trip(fields[n - 1], before, order, values[n - 1]);
    }
}

/// Round trip of a block: when fields that do not overlap have been written one after
/// the other, each of the first `n` decodes to the value that was written into it.
pub proof fn lemma_block_round_trip(
    fields: Seq<ScalarFieldView>,
    data: Seq<u8>,
    order: ByteOrder,
    values: Seq<int>,
    n: nat,
    i: int,
)
    requires
        pairwise_apart(fields),
        values_fit(fields, values),
        n <= fields.len(),
        0 <= i < n,
        block_stored(fields, data, order, values, n) is Ok,
    ensures
        fields[i].decoded_required(block_stored(fields, data, order, values, n)->Ok_0, order)
            == Ok::<int, SbeFault>(values[i]),
    decreases n,
{
    let before = block_stored(fields, data, order, values, (n - 1) as nat)->Ok_0;
    let last = fields[n - 1];
    if i == n - 1 {
        lemma_scalar_round_trip(last, before, order, values[n - 1]);
    } else {
        lemma_block_round_trip(fields, data, order, values, (n - 1) as nat, i);
        lemma_block_stored_len(fields, data, order, values, (n - 1) as nat);
        assert(apart(fields[i], last));
        assert(in_bounds(fields[i].offset, fields[i].primitive.width() as usize, before.len()));
        lemma_other_field_untouched(last, fields[i], before, order, values[n - 1]);
    }
}

/// Writing a block leaves every field outside it as it was: a field that overlaps none
/// of the written fields decodes to what it decoded to before.
pub proof fn lemma_block_leaves_others(
    fields: Seq<ScalarFieldView>,
    data: Seq<u8>,
    order: ByteOrder,
    values: Seq<int>,
    n: nat,
    other: ScalarFieldView,
)
    requires
        values_fit(fields, values),
        n <= fields.len(),
        block_stored(fields, data, order, values, n) is Ok,
        in_bounds(other.offset, other.primitive.width() as usize, data.len()),
        forall|i: int| 0 <= i < fields.len() ==> apart(#[trigger] fields[i], other),
    ensures
        other.decoded_required(block_stored(fields, data, order, values, n)->Ok_0, order)
            == other.decoded_required(data, order),
    decreases n,
{
    if n > 0 {
        let before = block_stored(fields, data, order, values, (n - 1) as nat)->Ok_0;
        lemma_block_leaves_others(fields, data, order, values, (n - 1) as nat, other);
        lemma_block_stored_len(fields, data, order, values, (n - 1) as nat);
        assert(apart(fields[n - 1], other));
        lemma_other_field_untouched(fields[n - 1], other, before, order, values[n - 1]);
    }
}

} // verus!
