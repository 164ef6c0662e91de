//! Arrays and character sequences in a fixed block.  Such a field is a run: as many
//! fields of one primitive, side by side, as it has elements.  A message that holds
//! arrays and texts is thus a message of single fields, and what holds of those holds
//! of it.

use crate::models::ByteOrder;
use crate::wire::buffer::{
    encode_unsigned, in_bounds, lemma_encoded_len, lemma_pow256_values, lemma_written_then_read,
    written,
};
use crate::wire::error::SbeFault;
use crate::wire::message::apart;
use crate::wire::scalar::{
    bound_view, value_bytes, Primitive, ScalarField, ScalarFieldView,
};
use crate::wire::text_field::TextFieldView;
use crate::wire::tree::bytes::{elements_bytes, fields_read, fields_stored};
use crate::wire::tree::laws::{lemma_block_values_round_trip, lemma_elements_bytes_len};
use crate::wire::tree::shape::{elements_fit, fields_wf, values_fit};
use crate::wire::tree::{block_field_views, optional_views, BlockField, BlockFieldView};
use vstd::prelude::*;
use vstd::string::*;

verus! {

/// The `i`-th field of the run of elements of the kind `p` that starts at `offset`: a
/// required field without bounds.
pub open spec fn run_field(name: Seq<char>, offset: usize, p: Primitive, i: int) -> BlockFieldView {
    BlockFieldView {
        field: ScalarFieldView {
            name,
            offset: (offset + i * p.width()) as usize,
            primitive: p,
            null_value: p.default_null(),
            null_is_nan: p.is_float(),
            min_value: None,
            max_value: None,
        },
        optional: false,
    }
}

/// The fields of a run of `n` elements.
pub open spec fn run_fields(name: Seq<char>, offset: usize, p: Primitive, n: nat) -> Seq<
    BlockFieldView,
> {
    Seq::new(n, |i: int| run_field(name, offset, p, i))
}

/// The elements as values of required fields.
pub open spec fn present(elements: Seq<int>) -> Seq<Option<int>> {
    Seq::new(elements.len(), |i: int| Some(elements[i]))
}

/// Bytes as numbers.
pub open spec fn byte_numbers(bytes: Seq<u8>) -> Seq<int> {
    Seq::new(bytes.len(), |i: int| bytes[i] as int)
}

/// The fields of an array or a text of `length` elements of the kind `primitive` at
/// `offset`; none where the run would end beyond what a `usize` can hold.
pub fn run_of(name: &str, offset: usize, primitive: Primitive, length: usize) -> (r: Option<
    Vec<BlockField>,
>)
    ensures
        match r {
            Some(fields) => offset + length * primitive.width() <= usize::MAX && block_field_views(
                fields@,
            ) == run_fields(name@, offset, primitive, length as nat),
            None => offset + length * primitive.width() > usize::MAX,
        },
{
    let w = primitive.size();
    assert(length as u128 * w as u128 <= 0x8_0000_0000_0000_0000) by (nonlinear_arith)
        requires
            length <= u64::MAX,
            1 <= w <= 8,
    ;
    let end: u128 = offset as u128 + length as u128 * w as u128;
    if end > usize::MAX as u128 {
        return None;
    }
    let mut fields: Vec<BlockField> = Vec::new();
    let mut i: usize = 0;
    while i < length
        invariant
            i <= length,
            w == primitive.width(),
            1 <= w <= 8,
            offset + length * w <= usize::MAX,
            fields@.len() == i,
            forall|j: int|
                0 <= j < i ==> (#[trigger] fields@[j])@ == run_field(name@, offset, primitive, j),
        decreases length - i,
    {
        assert(0 <= i * w && i * w + w <= length * w) by (nonlinear_arith)
            requires
                0 <= i < length,
                w >= 1,
        ;
        let at: usize = offset + i * w;
        fields.push(BlockField { field: ScalarField::new(name, at, primitive), optional: false });
        i = i + 1;
    }
    assert(block_field_views(fields@) =~= run_fields(name@, offset, primitive, length as nat));
    Some(fields)
}

/// The bytes of a text or of an array of bytes as the values of its run.
pub fn byte_values(bytes: &[u8]) -> (r: Vec<Option<i128>>)
    ensures
        optional_views(r@) == present(byte_numbers(bytes@)),
{
    let mut out: Vec<Option<i128>> = Vec::new();
    let mut i: usize = 0;
    while i < bytes.len()
        invariant
            i <= bytes.len(),
            out@.len() == i,
            forall|j: int| 0 <= j < i ==> (#[trigger] out@[j]) == Some(bytes@[j] as i128),
        decreases bytes.len() - i,
    {
        out.push(Some(bytes[i] as i128));
        i = i + 1;
    }
    assert(optional_views(out@) =~= present(byte_numbers(bytes@)));
    out
}

/// Where the `i`-th of `n` elements of `w` bytes each stands within its run.
pub proof fn lemma_run_place(i: int, n: nat, w: nat)
    requires
        0 <= i < n,
        w >= 1,
    ensures
        0 <= i * w,
        i * w + w <= n * w,
{
    assert(0 <= i * w && i * w + w <= n * w) by (nonlinear_arith)
        requires
            0 <= i < n,
            w >= 1,
    ;
}

/// The fields of a run are well formed, lie side by side within their block and share
/// no byte; and elements that the primitive can hold are values for them.
pub proof fn lemma_run_wf(
    name: Seq<char>,
    offset: usize,
    p: Primitive,
    elements: Seq<int>,
    block_length: nat,
)
    requires
        offset + elements.len() * p.width() <= block_length,
        block_length <= usize::MAX,
        elements_fit(p, elements),
    ensures
        fields_wf(run_fields(name, offset, p, elements.len()), block_length),
        values_fit(run_fields(name, offset, p, elements.len()), present(elements), true),
{
    let n = elements.len();
    let w = p.width();
    let fields = run_fields(name, offset, p, n);
    lemma_pow256_values();
    assert forall|i: int| 0 <= i < fields.len() implies (#[trigger] fields[i]).wf(block_length) by {
        lemma_run_place(i, n, w);
    }
    assert forall|i: int, j: int| 0 <= i < j < fields.len() implies apart(
        (#[trigger] fields[i]).field,
        (#[trigger] fields[j]).field,
    ) by {
        lemma_run_place(i, n, w);
        lemma_run_place(j, n, w);
        assert(i * w + w <= j * w) by (nonlinear_arith)
            requires
                0 <= i < j,
                w >= 1,
        ;
    }
    assert forall|i: int| 0 <= i < fields.len() implies (#[trigger] fields[i]).fits(
        present(elements)[i],
        true,
    ) by {
        assert(p.holds(elements[i]));
    }
}

/// Writing one stretch of bytes and then another right behind it is writing the two in
/// a row.
pub proof fn lemma_written_in_a_row(data: Seq<u8>, index: int, a: Seq<u8>, b: Seq<u8>)
    requires
        0 <= index,
        index + a.len() + b.len() <= data.len(),
    ensures
        written(written(data, index, a), index + a.len(), b) == written(data, index, a + b),
{
    lemma_written_then_read(data, index, a);
    assert(written(written(data, index, a), index + a.len(), b) =~= written(data, index, a + b));
}

/// What a run writes: the values of the elements written into the fields of a run, one
/// after the other, are the bytes of the elements in a row at the offset of the run.
pub proof fn lemma_run_stored(
    name: Seq<char>,
    offset: usize,
    p: Primitive,
    elements: Seq<int>,
    block: Seq<u8>,
    order: ByteOrder,
    k: nat,
)
    requires
        k <= elements.len(),
        offset + elements.len() * p.width() <= block.len(),
        block.len() <= usize::MAX,
    ensures
        fields_stored(
            run_fields(name, offset, p, elements.len()),
            block,
            order,
            present(elements),
            k,
        ) == Ok::<Seq<u8>, SbeFault>(
            written(block, offset as int, elements_bytes(p, elements, order, k)),
        ),
    decreases k,
{
    let n = elements.len();
    let w = p.width();
    let fields = run_fields(name, offset, p, n);
    if k == 0 {
        assert(written(block, offset as int, Seq::<u8>::empty()) =~= block);
    } else {
        lemma_run_stored(name, offset, p, elements, block, order, (k - 1) as nat);
        let a = elements_bytes(p, elements, order, (k - 1) as nat);
        let b = value_bytes(p, elements[k - 1], order);
        let before = written(block, offset as int, a);
        lemma_elements_bytes_len(p, elements, order, (k - 1) as nat);
        lemma_encoded_len(p.raw(elements[k - 1]), w, order);
        assert(0 <= (k - 1) * w && (k - 1) * w + w <= n * w) by (nonlinear_arith)
            requires
                1 <= k <= n,
                w >= 1,
        ;
        lemma_written_then_read(block, offset as int, a);
        let f = fields[k - 1].field;
        assert(f.offset == offset + (k - 1) * w);
        assert(present(elements)[k - 1] == Some(elements[k - 1]));
        assert(in_bounds(f.offset, w as usize, before.len()));
        lemma_written_in_a_row(block, offset as int, a, b);
    }
}

/// The bytes of numbers that are bytes are those bytes.
pub proof fn lemma_bytes_of_bytes(p: Primitive, bytes: Seq<u8>, order: ByteOrder, k: nat)
    requires
        p is Char || p is UInt8,
        k <= bytes.len(),
    ensures
        elements_bytes(p, byte_numbers(bytes), order, k) == bytes.subrange(0, k as int),
    decreases k,
{
    if k == 0 {
        assert(bytes.subrange(0, 0) =~= Seq::<u8>::empty());
    } else {
        lemma_bytes_of_bytes(p, bytes, order, (k - 1) as nat);
        let b = bytes[k - 1];
        assert(byte_numbers(bytes)[k - 1] == b as int);
        assert(p.raw(b as int) == b as nat);
        assert(p.width() == 1);
        let one = encode_unsigned(b as nat, 1, order);
        assert(encode_unsigned((b as nat) / 256, 0, order) =~= Seq::<u8>::empty());
        assert(one =~= seq![b]) by {
            reveal_with_fuel(crate::wire::buffer::le_bytes, 2);
            reveal_with_fuel(crate::wire::buffer::be_bytes, 2);
        }
        assert(bytes.subrange(0, k - 1) + seq![b] =~= bytes.subrange(0, k as int));
    }
}

/// A character sequence is a run of characters: writing the bytes of a text with its
/// padding into the run of its field gives the buffer that encoding the text into the
/// field gives.
pub proof fn lemma_text_is_a_run(f: TextFieldView, data: Seq<u8>, value: Seq<char>, order: ByteOrder)
    requires
        f.encoded(data, value) is Ok,
        data.len() <= usize::MAX,
    ensures
        fields_stored(
            run_fields(f.name, f.offset, Primitive::Char, f.length as nat),
            data,
            order,
            present(byte_numbers(f.padded(value))),
            f.length as nat,
        ) == f.encoded(data, value),
{
    let bytes = f.padded(value);
    let elements = byte_numbers(bytes);
    assert(bytes.len() == f.length);
    assert(f.length * 1 == f.length) by (nonlinear_arith);
    lemma_run_stored(f.name, f.offset, Primitive::Char, elements, data, order, f.length as nat);
    lemma_bytes_of_bytes(Primitive::Char, bytes, order, f.length as nat);
    assert(bytes.subrange(0, f.length as int) =~= bytes);
}

/// Round trip of a character sequence within a message: after a text has been encoded
/// into its field, the run of the field reads, byte by byte, the text with its padding.
pub proof fn lemma_text_read_back(f: TextFieldView, data: Seq<u8>, value: Seq<char>, order: ByteOrder)
    requires
        f.encoded(data, value) is Ok,
        data.len() <= usize::MAX,
    ensures
        fields_read(
            run_fields(f.name, f.offset, Primitive::Char, f.length as nat),
            f.encoded(data, value)->Ok_0,
            order,
            f.length as nat,
        ) == Ok::<Seq<Option<int>>, SbeFault>(present(byte_numbers(f.padded(value)))),
{
    let bytes = f.padded(value);
    let elements = byte_numbers(bytes);
    let fields = run_fields(f.name, f.offset, Primitive::Char, f.length as nat);
    assert(bytes.len() == f.length);
    assert(f.length * 1 == f.length) by (nonlinear_arith);
    lemma_pow256_values();
    assert(elements_fit(Primitive::Char, elements));
    lemma_text_is_a_run(f, data, value, order);
    lemma_run_wf(f.name, f.offset, Primitive::Char, elements, data.len());
    lemma_block_values_round_trip(fields, data, order, present(elements), f.length as nat);
    assert(present(elements).subrange(0, f.length as int) =~= present(elements));
}

} // verus!
